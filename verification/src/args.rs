//! The command line of the client.

use crate::text::{
    decimal, fits, number_of, numbers_are_read_from_their_digits, parse_u32, parse_usize,
    push_decimal, read_number, same_text, unsigned, NumberError,
};
use vstd::prelude::*;

verus! {

/// What the command line asks for.
#[derive(Debug)]
pub struct Args {
    /// Base URL of the server.
    pub server: String,
    /// The `.fbin` query file.
    pub queries: String,
    /// Neighbours to return.
    pub k: u32,
    /// Search-list size.
    pub search_list: u32,
    /// Beam width.
    pub beam_width: usize,
    /// Whether to search by brute force.
    pub flat: bool,
    /// How many queries to send at most.
    pub limit: Option<usize>,
    /// Parallel client threads.
    pub concurrency: usize,
    /// Whether to send all queries in one request.
    pub batch: bool,
    /// Whether to suppress the output for each query.
    pub quiet: bool,
}

/// The contents of an [`Args`].
pub struct ArgsView {
    pub server: Seq<char>,
    pub queries: Seq<char>,
    pub k: u32,
    pub search_list: u32,
    pub beam_width: usize,
    pub flat: bool,
    pub limit: Option<usize>,
    pub concurrency: usize,
    pub batch: bool,
    pub quiet: bool,
}

impl View for Args {
    type V = ArgsView;

    open spec fn view(&self) -> ArgsView {
        ArgsView {
            server: self.server@,
            queries: self.queries@,
            k: self.k,
            search_list: self.search_list,
            beam_width: self.beam_width,
            flat: self.flat,
            limit: self.limit,
            concurrency: self.concurrency,
            batch: self.batch,
            quiet: self.quiet,
        }
    }
}

/// Why a command line is refused.
#[derive(Debug)]
pub enum ArgsError {
    /// The option stands last, without its value.
    MissingValue(String),
    /// The option's value is not a number of its type.
    BadNumber(String, NumberError),
    /// There is no such option.
    Unknown(String),
    /// No query file is given.
    NoQueries,
    /// The search list is shorter than the number of neighbours asked for.
    ListBelowK { search_list: u32, k: u32 },
}

/// The contents of an [`ArgsError`].
pub enum ArgsErrorView {
    MissingValue(Seq<char>),
    BadNumber(Seq<char>, NumberError),
    Unknown(Seq<char>),
    NoQueries,
    ListBelowK { search_list: u32, k: u32 },
}

impl View for ArgsError {
    type V = ArgsErrorView;

    open spec fn view(&self) -> ArgsErrorView {
        match self {
            ArgsError::MissingValue(arg) => ArgsErrorView::MissingValue(arg@),
            ArgsError::BadNumber(arg, e) => ArgsErrorView::BadNumber(arg@, *e),
            ArgsError::Unknown(arg) => ArgsErrorView::Unknown(arg@),
            ArgsError::NoQueries => ArgsErrorView::NoQueries,
            ArgsError::ListBelowK { search_list, k } => ArgsErrorView::ListBelowK {
                search_list: *search_list,
                k: *k,
            },
        }
    }
}

/// The texts of the arguments.
pub open spec fn texts(argv: Seq<String>) -> Seq<Seq<char>> {
    Seq::new(argv.len(), |i: int| argv[i]@)
}

/// What the client does when no option is given.
pub open spec fn no_options() -> ArgsView {
    ArgsView {
        server: "http://127.0.0.1:8080"@,
        queries: Seq::<char>::empty(),
        k: 10,
        search_list: 100,
        beam_width: 4,
        flat: false,
        limit: None,
        concurrency: 1,
        batch: false,
        quiet: false,
    }
}

/// The options that take a value.
pub open spec fn takes_value(arg: Seq<char>) -> bool {
    ||| arg == "--server"@
    ||| arg == "--queries"@
    ||| arg == "--k"@
    ||| arg == "--search-list"@
    ||| arg == "--beam"@
    ||| arg == "--limit"@
    ||| arg == "--concurrency"@
}

/// The options that stand alone.
pub open spec fn is_switch(arg: Seq<char>) -> bool {
    ||| arg == "--flat"@
    ||| arg == "--batch"@
    ||| arg == "--quiet"@
}

/// `a` with the option `arg` set to `value`.
pub open spec fn with_value(a: ArgsView, arg: Seq<char>, value: Seq<char>) -> Result<
    ArgsView,
    ArgsErrorView,
> {
    if arg == "--server"@ {
        Ok(ArgsView { server: value, ..a })
    } else if arg == "--queries"@ {
        Ok(ArgsView { queries: value, ..a })
    } else if arg == "--k"@ {
        match read_number(value, u32::MAX as nat) {
            Ok(n) => Ok(ArgsView { k: n as u32, ..a }),
            Err(e) => Err(ArgsErrorView::BadNumber(arg, e)),
        }
    } else if arg == "--search-list"@ {
        match read_number(value, u32::MAX as nat) {
            Ok(n) => Ok(ArgsView { search_list: n as u32, ..a }),
            Err(e) => Err(ArgsErrorView::BadNumber(arg, e)),
        }
    } else {
        match read_number(value, usize::MAX as nat) {
            Ok(n) => if arg == "--beam"@ {
                Ok(ArgsView { beam_width: n as usize, ..a })
            } else if arg == "--limit"@ {
                Ok(ArgsView { limit: Some(n as usize), ..a })
            } else {
                Ok(ArgsView { concurrency: n as usize, ..a })
            },
            Err(e) => Err(ArgsErrorView::BadNumber(arg, e)),
        }
    }
}

/// `a` with the switch `arg` on.
pub open spec fn with_switch(a: ArgsView, arg: Seq<char>) -> ArgsView {
    if arg == "--flat"@ {
        ArgsView { flat: true, ..a }
    } else if arg == "--batch"@ {
        ArgsView { batch: true, ..a }
    } else {
        ArgsView { quiet: true, ..a }
    }
}

/// What the options `argv`, taken from left to right, make of `a`.
pub open spec fn with_options(a: ArgsView, argv: Seq<Seq<char>>) -> Result<ArgsView, ArgsErrorView>
    decreases argv.len(),
{
    if argv.len() == 0 {
        Ok(a)
    } else if takes_value(argv[0]) {
        if argv.len() == 1 {
            Err(ArgsErrorView::MissingValue(argv[0]))
        } else {
            match with_value(a, argv[0], argv[1]) {
                Ok(b) => with_options(b, argv.skip(2)),
                Err(e) => Err(e),
            }
        }
    } else if is_switch(argv[0]) {
        with_options(with_switch(a, argv[0]), argv.skip(1))
    } else {
        Err(ArgsErrorView::Unknown(argv[0]))
    }
}

/// What a whole command line asks for, or why it is refused.
pub open spec fn command_line(argv: Seq<Seq<char>>) -> Result<ArgsView, ArgsErrorView> {
    match with_options(no_options(), argv) {
        Ok(a) => if a.queries.len() == 0 {
            Err(ArgsErrorView::NoQueries)
        } else if a.search_list < a.k {
            Err(ArgsErrorView::ListBelowK { search_list: a.search_list, k: a.k })
        } else if a.concurrency == 0 {
            Ok(ArgsView { concurrency: 1, ..a })
        } else {
            Ok(a)
        },
        Err(e) => Err(e),
    }
}

/// Whether the option `arg` takes a value.
fn is_valued(arg: &str) -> (r: bool)
    ensures
        r == takes_value(arg@),
{
    same_text(arg, "--server") || same_text(arg, "--queries") || same_text(arg, "--k") || same_text(
        arg,
        "--search-list",
    ) || same_text(arg, "--beam") || same_text(arg, "--limit") || same_text(arg, "--concurrency")
}

/// Reads the value of the option `arg` as a `u32`.
fn u32_value(arg: &str, value: &str) -> (r: Result<u32, ArgsError>)
    ensures
        r matches Ok(n) ==> read_number(value@, u32::MAX as nat) == Ok::<nat, NumberError>(
            n as nat,
        ),
        r matches Err(e) ==> read_number(value@, u32::MAX as nat) is Err && e@
            == ArgsErrorView::BadNumber(arg@, read_number(value@, u32::MAX as nat)->Err_0),
{
    match parse_u32(value) {
        Ok(n) => Ok(n),
        Err(e) => Err(ArgsError::BadNumber(arg.to_owned(), e)),
    }
}

/// Reads the value of the option `arg` as a `usize`.
fn usize_value(arg: &str, value: &str) -> (r: Result<usize, ArgsError>)
    ensures
        r matches Ok(n) ==> read_number(value@, usize::MAX as nat) == Ok::<nat, NumberError>(
            n as nat,
        ),
        r matches Err(e) ==> read_number(value@, usize::MAX as nat) is Err && e@
            == ArgsErrorView::BadNumber(arg@, read_number(value@, usize::MAX as nat)->Err_0),
{
    match parse_usize(value) {
        Ok(n) => Ok(n),
        Err(e) => Err(ArgsError::BadNumber(arg.to_owned(), e)),
    }
}

/// Sets the option `arg` of `a` to `value`.
fn set_value(a: &mut Args, arg: &str, value: &str) -> (r: Result<(), ArgsError>)
    requires
        takes_value(arg@),
    ensures
        r is Ok ==> with_value(old(a)@, arg@, value@) == Ok::<ArgsView, ArgsErrorView>(final(a)@),
        r matches Err(e) ==> with_value(old(a)@, arg@, value@) == Err::<ArgsView, ArgsErrorView>(
            e@,
        ),
{
    if same_text(arg, "--server") {
        a.server = value.to_owned();
    } else if same_text(arg, "--queries") {
        a.queries = value.to_owned();
    } else if same_text(arg, "--k") {
        match u32_value(arg, value) {
            Ok(n) => {
                a.k = n;
            },
            Err(e) => {
                return Err(e);
            },
        }
    } else if same_text(arg, "--search-list") {
        match u32_value(arg, value) {
            Ok(n) => {
                a.search_list = n;
            },
            Err(e) => {
                return Err(e);
            },
        }
    } else {
        match usize_value(arg, value) {
            Ok(n) => {
                if same_text(arg, "--beam") {
                    a.beam_width = n;
                } else if same_text(arg, "--limit") {
                    a.limit = Some(n);
                } else {
                    a.concurrency = n;
                }
            },
            Err(e) => {
                return Err(e);
            },
        }
    }
    Ok(())
}

/// Reads the options of the command line, without the program's name.
pub fn parse_args(argv: &Vec<String>) -> (r: Result<Args, ArgsError>)
    ensures
        r matches Ok(a) ==> command_line(texts(argv@)) == Ok::<ArgsView, ArgsErrorView>(a@),
        r matches Err(e) ==> command_line(texts(argv@)) == Err::<ArgsView, ArgsErrorView>(e@),
{
    let mut a = Args {
        server: "http://127.0.0.1:8080".to_owned(),
        queries: String::new(),
        k: 10,
        search_list: 100,
        beam_width: 4,
        flat: false,
        limit: None,
        concurrency: 1,
        batch: false,
        quiet: false,
    };
    let ghost all = texts(argv@);
    let mut i: usize = 0;
    assert(all.skip(0) =~= all);
    while i < argv.len()
        invariant
            i <= argv.len(),
            all == texts(argv@),
            with_options(no_options(), all) == with_options(a@, all.skip(i as int)),
        decreases argv.len() - i,
    {
        let arg = argv[i].as_str();
        let ghost rest = all.skip(i as int);
        assert(rest[0] == arg@);
        assert(rest.skip(1) =~= all.skip(i + 1));
        if is_valued(arg) {
            i += 1;
            if i == argv.len() {
                return Err(ArgsError::MissingValue(arg.to_owned()));
            }
            assert(rest[1] == argv@[i as int]@);
            assert(rest.skip(2) =~= all.skip(i + 1));
            match set_value(&mut a, arg, argv[i].as_str()) {
                Ok(()) => {},
                Err(e) => {
                    return Err(e);
                },
            }
        } else if same_text(arg, "--flat") {
            a.flat = true;
        } else if same_text(arg, "--batch") {
            a.batch = true;
        } else if same_text(arg, "--quiet") {
            a.quiet = true;
        } else {
            return Err(ArgsError::Unknown(arg.to_owned()));
        }
        i += 1;
    }
    if a.queries.as_str().is_empty() {
        return Err(ArgsError::NoQueries);
    }
    if a.search_list < a.k {
        return Err(ArgsError::ListBelowK { search_list: a.search_list, k: a.k });
    }
    if a.concurrency == 0 {
        a.concurrency = 1;
    }
    Ok(a)
}

impl ArgsErrorView {
    /// What the user is told first.
    pub open spec fn headline(self) -> Seq<char> {
        match self {
            ArgsErrorView::MissingValue(arg) => "missing value after "@ + arg,
            ArgsErrorView::BadNumber(arg, _) => arg,
            ArgsErrorView::Unknown(arg) => "unknown argument: "@ + arg,
            ArgsErrorView::NoQueries => "--queries <file.fbin> is required"@,
            ArgsErrorView::ListBelowK { search_list, k } => "--search-list ("@ + decimal(
                search_list as nat,
            ) + ") must be >= --k ("@ + decimal(k as nat) + ")"@,
        }
    }

    /// What lies behind the headline, if anything does.
    pub open spec fn cause_in_words(self) -> Option<Seq<char>> {
        match self {
            ArgsErrorView::BadNumber(_, e) => Some(e.in_words()),
            _ => None,
        }
    }
}

impl ArgsError {
    /// What the user is told first.
    pub fn message(&self) -> (s: String)
        ensures
            s@ == self@.headline(),
    {
        match self {
            ArgsError::MissingValue(arg) => {
                let mut s = "missing value after ".to_owned();
                s.append(arg.as_str());
                s
            },
            ArgsError::BadNumber(arg, _) => arg.clone(),
            ArgsError::Unknown(arg) => {
                let mut s = "unknown argument: ".to_owned();
                s.append(arg.as_str());
                s
            },
            ArgsError::NoQueries => "--queries <file.fbin> is required".to_owned(),
            ArgsError::ListBelowK { search_list, k } => {
                let mut s = "--search-list (".to_owned();
                push_decimal(&mut s, *search_list as u128);
                s.append(") must be >= --k (");
                push_decimal(&mut s, *k as u128);
                s.append(")");
                s
            },
        }
    }

    /// What lies behind the message, if anything does.
    pub fn cause(&self) -> (c: Option<&'static str>)
        ensures
            c is Some <==> self@.cause_in_words() is Some,
            c matches Some(s) ==> self@.cause_in_words() == Some(s@),
    {
        match self {
            ArgsError::BadNumber(_, e) => Some(e.message()),
            _ => None,
        }
    }
}

/// A command line that is accepted names a query file, asks for at least one
/// thread, and keeps a search list at least as long as the number of neighbours.
pub proof fn accepted_args_are_usable(argv: Seq<Seq<char>>)
    ensures
        command_line(argv) matches Ok(a) ==> a.queries.len() > 0 && a.concurrency >= 1
            && a.search_list >= a.k,
{
}

/// Options are taken from left to right: those that follow a complete list of
/// options start from what that list has made.
pub proof fn options_add_up(a: ArgsView, first: Seq<Seq<char>>, second: Seq<Seq<char>>)
    ensures
        with_options(a, first) matches Ok(b) ==> with_options(a, first + second) == with_options(
            b,
            second,
        ),
    decreases first.len(),
{
    let both = first + second;
    if first.len() == 0 {
        assert(both =~= second);
    } else if takes_value(first[0]) {
        if first.len() > 1 {
            if let Ok(b) = with_value(a, first[0], first[1]) {
                assert(both.skip(2) =~= first.skip(2) + second);
                options_add_up(b, first.skip(2), second);
            }
        }
    } else if is_switch(first[0]) {
        assert(both.skip(1) =~= first.skip(1) + second);
        options_add_up(with_switch(a, first[0]), first.skip(1), second);
    }
}

/// Whether `x` is one option, with its value if it takes one.
pub open spec fn is_option(x: Seq<Seq<char>>) -> bool {
    ||| x.len() == 2 && takes_value(x[0])
    ||| x.len() == 1 && is_switch(x[0])
}

proof fn lemma_switches_take_no_value(arg: Seq<char>)
    requires
        is_switch(arg),
    ensures
        !takes_value(arg),
{
    reveal_strlit("--server");
    reveal_strlit("--queries");
    reveal_strlit("--k");
    reveal_strlit("--search-list");
    reveal_strlit("--beam");
    reveal_strlit("--limit");
    reveal_strlit("--concurrency");
    reveal_strlit("--flat");
    reveal_strlit("--batch");
    reveal_strlit("--quiet");
    assert(arg.len() == 6 && arg[2] == 'f' || arg.len() == 7 && arg[2] != 'l');
    assert(takes_value(arg) ==> {
        ||| arg.len() == 6 && arg[2] == 'b'
        ||| arg.len() == 7 && arg[2] == 'l'
        ||| arg.len() < 6
        ||| arg.len() > 7
    });
}

proof fn lemma_option(a: ArgsView, x: Seq<Seq<char>>)
    requires
        is_option(x),
    ensures
        with_options(a, x) == if x.len() == 2 {
            with_value(a, x[0], x[1])
        } else {
            Ok::<ArgsView, ArgsErrorView>(with_switch(a, x[0]))
        },
{
    if x.len() == 2 {
        assert(x.skip(2) =~= Seq::<Seq<char>>::empty());
        if let Ok(b) = with_value(a, x[0], x[1]) {
            assert(with_options(b, x.skip(2)) == Ok::<ArgsView, ArgsErrorView>(b));
        }
    } else {
        lemma_switches_take_no_value(x[0]);
        assert(x.skip(1) =~= Seq::<Seq<char>>::empty());
        let b = with_switch(a, x[0]);
        assert(with_options(b, x.skip(1)) == Ok::<ArgsView, ArgsErrorView>(b));
    }
}

/// The first thing that is wrong decides: options that follow it change nothing,
/// unless they are the value that was missing.
pub proof fn first_mistake_decides(a: ArgsView, first: Seq<Seq<char>>, second: Seq<Seq<char>>)
    ensures
        with_options(a, first) matches Err(e) ==> !(e is MissingValue) ==> with_options(
            a,
            first + second,
        ) == with_options(a, first),
    decreases first.len(),
{
    let both = first + second;
    if first.len() > 0 && takes_value(first[0]) {
        if first.len() > 1 {
            if let Ok(b) = with_value(a, first[0], first[1]) {
                assert(both.skip(2) =~= first.skip(2) + second);
                first_mistake_decides(b, first.skip(2), second);
            }
        }
    } else if first.len() > 0 && is_switch(first[0]) {
        assert(both.skip(1) =~= first.skip(1) + second);
        first_mistake_decides(with_switch(a, first[0]), first.skip(1), second);
    }
}

proof fn lemma_options_swap(
    a: ArgsView,
    x: Seq<Seq<char>>,
    y: Seq<Seq<char>>,
    after: Seq<Seq<char>>,
)
    requires
        is_option(x),
        is_option(y),
        x[0] != y[0],
        with_options(no_options(), x) is Ok || with_options(no_options(), y) is Ok,
    ensures
        with_options(a, x + y + after) == with_options(a, y + x + after),
{
    lemma_option(no_options(), x);
    lemma_option(no_options(), y);
    lemma_option(a, x);
    lemma_option(a, y);
    assert(x + y + after =~= x + (y + after));
    assert(y + x + after =~= y + (x + after));
    options_add_up(a, x, y + after);
    options_add_up(a, y, x + after);
    first_mistake_decides(a, x, y + after);
    first_mistake_decides(a, y, x + after);
    if let Ok(b) = with_options(a, x) {
        lemma_option(b, y);
        options_add_up(b, y, after);
        first_mistake_decides(b, y, after);
    }
    if let Ok(c) = with_options(a, y) {
        lemma_option(c, x);
        options_add_up(c, x, after);
        first_mistake_decides(c, x, after);
    }
}

/// Different options may be given in any order: two neighbours can change places
/// wherever they stand, unless the values of both are refused, when the one that
/// comes first is told of.
pub proof fn order_of_options_is_no_matter(
    before: Seq<Seq<char>>,
    x: Seq<Seq<char>>,
    y: Seq<Seq<char>>,
    after: Seq<Seq<char>>,
)
    requires
        is_option(x),
        is_option(y),
        x[0] != y[0],
        with_options(no_options(), x) is Ok || with_options(no_options(), y) is Ok,
        !(with_options(no_options(), before) matches Err(e) && e is MissingValue),
    ensures
        command_line(before + x + y + after) == command_line(before + y + x + after),
{
    assert(before + x + y + after =~= before + (x + y + after));
    assert(before + y + x + after =~= before + (y + x + after));
    options_add_up(no_options(), before, x + y + after);
    options_add_up(no_options(), before, y + x + after);
    first_mistake_decides(no_options(), before, x + y + after);
    first_mistake_decides(no_options(), before, y + x + after);
    if let Ok(a) = with_options(no_options(), before) {
        lemma_options_swap(a, x, y, after);
    }
}

/// Of two values given for one option the last one counts.
pub proof fn last_value_wins(a: ArgsView, arg: Seq<char>, v: Seq<char>, w: Seq<char>)
    requires
        takes_value(arg),
    ensures
        with_value(a, arg, v) is Ok ==> with_options(a, seq![arg, v, arg, w]) == with_value(
            a,
            arg,
            w,
        ),
{
    if let Ok(b) = with_value(a, arg, v) {
        let argv = seq![arg, v, arg, w];
        let rest = seq![arg, w];
        assert(argv.skip(2) =~= rest);
        assert(rest.skip(2) =~= Seq::<Seq<char>>::empty());
        assert(with_options(a, argv) == with_options(b, rest));
        if let Ok(c) = with_value(b, arg, w) {
            assert(with_options(c, rest.skip(2)) == Ok::<ArgsView, ArgsErrorView>(c));
        }
    }
}

/// With a query file and nothing else, every other option keeps its default.
pub proof fn query_file_is_enough(file: Seq<char>)
    requires
        file.len() > 0,
    ensures
        command_line(seq!["--queries"@, file]) == Ok::<ArgsView, ArgsErrorView>(
            ArgsView { queries: file, ..no_options() },
        ),
{
    reveal_strlit("--queries");
    reveal_strlit("--server");
    let argv = seq!["--queries"@, file];
    assert("--queries"@[2] != "--server"@[2]);
    let a = ArgsView { queries: file, ..no_options() };
    assert(argv.skip(2) =~= Seq::<Seq<char>>::empty());
    assert(with_options(a, argv.skip(2)) == Ok::<ArgsView, ArgsErrorView>(a));
}

/// The ten options, and which of them take a value.
pub proof fn the_options_are_these(arg: Seq<char>)
    ensures
        takes_value(arg) <==> seq![
            "--server"@,
            "--queries"@,
            "--k"@,
            "--search-list"@,
            "--beam"@,
            "--limit"@,
            "--concurrency"@,
        ].contains(arg),
        is_switch(arg) <==> seq!["--flat"@, "--batch"@, "--quiet"@].contains(arg),
        !(takes_value(arg) && is_switch(arg)),
{
    let valued = seq![
        "--server"@,
        "--queries"@,
        "--k"@,
        "--search-list"@,
        "--beam"@,
        "--limit"@,
        "--concurrency"@,
    ];
    let switches = seq!["--flat"@, "--batch"@, "--quiet"@];
    assert(valued[0] == "--server"@ && valued[1] == "--queries"@ && valued[2] == "--k"@);
    assert(valued[3] == "--search-list"@ && valued[4] == "--beam"@ && valued[5] == "--limit"@);
    assert(valued[6] == "--concurrency"@);
    assert(switches[0] == "--flat"@ && switches[1] == "--batch"@ && switches[2] == "--quiet"@);
    if is_switch(arg) {
        lemma_switches_take_no_value(arg);
    }
}

proof fn lemma_names_differ()
    ensures
        "--server"@.len() == 8 && "--queries"@.len() == 9 && "--k"@.len() == 3,
        "--search-list"@.len() == 13 && "--beam"@.len() == 6 && "--limit"@.len() == 7,
        "--concurrency"@.len() == 13 && "--search-list"@ != "--concurrency"@,
        "--flat"@.len() == 6 && "--batch"@.len() == 7 && "--quiet"@.len() == 7,
        "--batch"@ != "--quiet"@ && "--flat"@ != "--beam"@,
        "--limit"@ != "--batch"@ && "--limit"@ != "--quiet"@,
{
    reveal_strlit("--server");
    reveal_strlit("--queries");
    reveal_strlit("--k");
    reveal_strlit("--search-list");
    reveal_strlit("--beam");
    reveal_strlit("--limit");
    reveal_strlit("--concurrency");
    reveal_strlit("--flat");
    reveal_strlit("--batch");
    reveal_strlit("--quiet");
    assert("--search-list"@[2] != "--concurrency"@[2]);
    assert("--batch"@[2] != "--quiet"@[2]);
    assert("--flat"@[2] != "--beam"@[2]);
    assert("--limit"@[2] != "--batch"@[2]);
    assert("--limit"@[2] != "--quiet"@[2]);
}

/// Each option sets its own field, and leaves every other one as it was.
pub proof fn each_option_sets_its_own_field(a: ArgsView, value: Seq<char>)
    ensures
        with_options(a, seq!["--flat"@]) == Ok::<ArgsView, ArgsErrorView>(
            ArgsView { flat: true, ..a },
        ),
        with_options(a, seq!["--batch"@]) == Ok::<ArgsView, ArgsErrorView>(
            ArgsView { batch: true, ..a },
        ),
        with_options(a, seq!["--quiet"@]) == Ok::<ArgsView, ArgsErrorView>(
            ArgsView { quiet: true, ..a },
        ),
        with_options(a, seq!["--server"@, value]) == Ok::<ArgsView, ArgsErrorView>(
            ArgsView { server: value, ..a },
        ),
        with_options(a, seq!["--queries"@, value]) == Ok::<ArgsView, ArgsErrorView>(
            ArgsView { queries: value, ..a },
        ),
        with_options(a, seq!["--k"@, value]) is Ok <==> unsigned(value).len() > 0 && fits(
            unsigned(value),
            u32::MAX as nat,
        ),
        with_options(a, seq!["--k"@, value]) matches Ok(b)
            ==> b.k == number_of(unsigned(value)) && b
            == (ArgsView { k: b.k, ..a }),
        with_options(a, seq!["--k"@, value]) matches Err(e) ==> e == ArgsErrorView::BadNumber(
            "--k"@,
            read_number(value, u32::MAX as nat)->Err_0,
        ),
        with_options(a, seq!["--search-list"@, value]) is Ok <==> unsigned(value).len() > 0 && fits(
            unsigned(value),
            u32::MAX as nat,
        ),
        with_options(a, seq!["--search-list"@, value]) matches Ok(b)
            ==> b.search_list == number_of(unsigned(value)) && b
            == (ArgsView { search_list: b.search_list, ..a }),
        with_options(a, seq!["--search-list"@, value]) matches Err(e)
            ==> e == ArgsErrorView::BadNumber(
            "--search-list"@,
            read_number(value, u32::MAX as nat)->Err_0,
        ),
        with_options(a, seq!["--beam"@, value]) is Ok <==> unsigned(value).len() > 0 && fits(
            unsigned(value),
            usize::MAX as nat,
        ),
        with_options(a, seq!["--beam"@, value]) matches Ok(b)
            ==> b.beam_width == number_of(unsigned(value)) && b
            == (ArgsView { beam_width: b.beam_width, ..a }),
        with_options(a, seq!["--beam"@, value]) matches Err(e) ==> e == ArgsErrorView::BadNumber(
            "--beam"@,
            read_number(value, usize::MAX as nat)->Err_0,
        ),
        with_options(a, seq!["--limit"@, value]) is Ok <==> unsigned(value).len() > 0 && fits(
            unsigned(value),
            usize::MAX as nat,
        ),
        with_options(a, seq!["--limit"@, value]) matches Ok(b) ==> b.limit is Some
            && b.limit->Some_0 == number_of(unsigned(value)) && b
            == (ArgsView { limit: b.limit, ..a }),
        with_options(a, seq!["--limit"@, value]) matches Err(e) ==> e == ArgsErrorView::BadNumber(
            "--limit"@,
            read_number(value, usize::MAX as nat)->Err_0,
        ),
        with_options(a, seq!["--concurrency"@, value]) is Ok <==> unsigned(value).len() > 0 && fits(
            unsigned(value),
            usize::MAX as nat,
        ),
        with_options(a, seq!["--concurrency"@, value]) matches Ok(b)
            ==> b.concurrency == number_of(unsigned(value)) && b
            == (ArgsView { concurrency: b.concurrency, ..a }),
        with_options(a, seq!["--concurrency"@, value]) matches Err(e)
            ==> e == ArgsErrorView::BadNumber(
            "--concurrency"@,
            read_number(value, usize::MAX as nat)->Err_0,
        ),
{
    lemma_names_differ();
    numbers_are_read_from_their_digits(value, u32::MAX as nat);
    numbers_are_read_from_their_digits(value, usize::MAX as nat);
    lemma_option(a, seq!["--flat"@]);
    lemma_option(a, seq!["--batch"@]);
    lemma_option(a, seq!["--quiet"@]);
    lemma_option(a, seq!["--server"@, value]);
    lemma_option(a, seq!["--queries"@, value]);
    lemma_option(a, seq!["--k"@, value]);
    lemma_option(a, seq!["--search-list"@, value]);
    lemma_option(a, seq!["--beam"@, value]);
    lemma_option(a, seq!["--limit"@, value]);
    lemma_option(a, seq!["--concurrency"@, value]);
}

/// Whether the option `name` is among `options`.
pub open spec fn given(options: Seq<Seq<Seq<char>>>, name: Seq<char>) -> bool {
    exists|i: int| 0 <= i < options.len() && #[trigger] options[i][0] == name
}

/// Whether the option `name` is not among `options`.
pub open spec fn not_given(options: Seq<Seq<Seq<char>>>, name: Seq<char>) -> bool {
    forall|i: int| 0 <= i < options.len() ==> #[trigger] options[i][0] != name
}

/// Whether the option at `i` is the last one called `name`.
pub open spec fn last_given(options: Seq<Seq<Seq<char>>>, name: Seq<char>, i: int) -> bool {
    &&& 0 <= i < options.len()
    &&& options[i][0] == name
    &&& forall|j: int| i < j < options.len() ==> #[trigger] options[j][0] != name
}

proof fn lemma_given(options: Seq<Seq<Seq<char>>>, name: Seq<char>)
    requires
        options.len() > 0,
    ensures
        given(options, name) <==> options[0][0] == name || given(options.drop_first(), name),
        not_given(options, name) <==> options[0][0] != name && not_given(
            options.drop_first(),
            name,
        ),
        forall|i: int| #[trigger]
            last_given(options, name, i) ==> {
                ||| i == 0 && options[0][0] == name && not_given(options.drop_first(), name)
                ||| i > 0 && last_given(options.drop_first(), name, i - 1)
            },
{
    let rest = options.drop_first();
    assert forall|i: int| 0 <= i < rest.len() implies #[trigger] rest[i] == options[i + 1] by {}
    if given(options, name) && options[0][0] != name {
        let i = choose|i: int| 0 <= i < options.len() && #[trigger] options[i][0] == name;
        assert(rest[i - 1][0] == name);
    }
    if given(rest, name) {
        let i = choose|i: int| 0 <= i < rest.len() && #[trigger] rest[i][0] == name;
        assert(options[i + 1][0] == name);
    }
    if not_given(options, name) {
        assert forall|i: int| 0 <= i < rest.len() implies #[trigger] rest[i][0] != name by {
            assert(options[i + 1][0] != name);
        }
    }
    if options[0][0] != name && not_given(rest, name) {
        assert forall|i: int| 0 <= i < options.len() implies #[trigger] options[i][0] != name by {
            if i > 0 {
                assert(rest[i - 1][0] != name);
            }
        }
    }
    assert forall|i: int| #[trigger] last_given(options, name, i) implies {
        ||| i == 0 && options[0][0] == name && not_given(rest, name)
        ||| i > 0 && last_given(rest, name, i - 1)
    } by {
        assert forall|j: int| i - 1 < j < rest.len() implies #[trigger] rest[j][0] != name by {
            assert(options[j + 1][0] != name);
        }
    }
}

proof fn lemma_options_settle(a: ArgsView, options: Seq<Seq<Seq<char>>>, b: ArgsView)
    requires
        forall|i: int| 0 <= i < options.len() ==> is_option(#[trigger] options[i]),
        with_options(a, options.flatten()) == Ok::<ArgsView, ArgsErrorView>(b),
    ensures
        b.flat <==> a.flat || given(options, "--flat"@),
        b.batch <==> a.batch || given(options, "--batch"@),
        b.quiet <==> a.quiet || given(options, "--quiet"@),
        not_given(options, "--server"@) ==> b.server == a.server,
        forall|i: int| #[trigger]
            last_given(options, "--server"@, i) ==> b.server == options[i][1],
        not_given(options, "--queries"@) ==> b.queries == a.queries,
        forall|i: int| #[trigger]
            last_given(options, "--queries"@, i) ==> b.queries == options[i][1],
        not_given(options, "--k"@) ==> b.k == a.k,
        forall|i: int| #[trigger]
            last_given(options, "--k"@, i) ==> fits(unsigned(options[i][1]), u32::MAX as nat)
                && unsigned(options[i][1]).len() > 0 && b.k == number_of(unsigned(options[i][1])),
        not_given(options, "--search-list"@) ==> b.search_list == a.search_list,
        forall|i: int| #[trigger]
            last_given(options, "--search-list"@, i)
                ==> fits(unsigned(options[i][1]), u32::MAX as nat)
                && unsigned(options[i][1]).len() > 0
                    && b.search_list == number_of(unsigned(options[i][1])),
        not_given(options, "--beam"@) ==> b.beam_width == a.beam_width,
        forall|i: int| #[trigger]
            last_given(options, "--beam"@, i) ==> fits(unsigned(options[i][1]), usize::MAX as nat)
                && unsigned(options[i][1]).len() > 0
                    && b.beam_width == number_of(unsigned(options[i][1])),
        not_given(options, "--limit"@) ==> b.limit == a.limit,
        forall|i: int| #[trigger]
            last_given(options, "--limit"@, i) ==> fits(unsigned(options[i][1]), usize::MAX as nat)
                && unsigned(options[i][1]).len() > 0 && b.limit is Some
                    && b.limit->Some_0 == number_of(
                unsigned(options[i][1]),
            ),
        not_given(options, "--concurrency"@) ==> b.concurrency == a.concurrency,
        forall|i: int| #[trigger]
            last_given(options, "--concurrency"@, i)
                ==> fits(unsigned(options[i][1]), usize::MAX as nat)
                && unsigned(options[i][1]).len() > 0
                    && b.concurrency == number_of(unsigned(options[i][1])),
    decreases options.len(),
{
    if options.len() > 0 {
        let first = options[0];
        let rest = options.drop_first();
        assert(options.flatten() == first + rest.flatten());
        options_add_up(a, first, rest.flatten());
        first_mistake_decides(a, first, rest.flatten());
        lemma_option(a, first);
        lemma_names_differ();
        assert(with_options(a, first) is Ok);
        let c = with_options(a, first)->Ok_0;
        assert forall|i: int| 0 <= i < rest.len() implies is_option(#[trigger] rest[i]) by {
            assert(rest[i] == options[i + 1]);
        }
        lemma_options_settle(c, rest, b);
        if first.len() == 2 {
            numbers_are_read_from_their_digits(first[1], u32::MAX as nat);
            numbers_are_read_from_their_digits(first[1], usize::MAX as nat);
        }
        assert forall|i: int| 0 < i < options.len() implies options[i] == #[trigger] rest[i - 1] by {}
        lemma_given(options, "--flat"@);
        lemma_given(options, "--batch"@);
        lemma_given(options, "--quiet"@);
        lemma_given(options, "--server"@);
        lemma_given(options, "--queries"@);
        lemma_given(options, "--k"@);
        lemma_given(options, "--search-list"@);
        lemma_given(options, "--beam"@);
        lemma_given(options, "--limit"@);
        lemma_given(options, "--concurrency"@);
    }
}

/// What an accepted command line asks for. A switch is on just when it is among
/// the options. An option with a value has the value that was given last; one
/// that was not given has its default. No fewer than one thread asks, the query
/// file has a name, and the search list is at least as long as the number of
/// neighbours.
pub proof fn command_lines_ask_for_what_they_give(
    argv: Vec<String>,
    options: Seq<Seq<Seq<char>>>,
    args: Args,
)
    requires
        call_ensures(parse_args, (&argv,), Ok(args)),
        forall|i: int| 0 <= i < options.len() ==> is_option(#[trigger] options[i]),
        options.flatten().len() == argv@.len(),
        forall|i: int| 0 <= i < argv@.len() ==> (#[trigger] argv@[i])@ == options.flatten()[i],
    ensures
        args.flat <==> given(options, "--flat"@),
        args.batch <==> given(options, "--batch"@),
        args.quiet <==> given(options, "--quiet"@),
        not_given(options, "--server"@) ==> args.server@ == "http://127.0.0.1:8080"@,
        forall|i: int| #[trigger]
            last_given(options, "--server"@, i) ==> args.server@ == options[i][1],
        !not_given(options, "--queries"@),
        forall|i: int| #[trigger]
            last_given(options, "--queries"@, i) ==> args.queries@ == options[i][1],
        not_given(options, "--k"@) ==> args.k == 10,
        forall|i: int| #[trigger]
            last_given(options, "--k"@, i) ==> fits(unsigned(options[i][1]), u32::MAX as nat)
                && unsigned(options[i][1]).len() > 0
                    && args.k == number_of(unsigned(options[i][1])),
        not_given(options, "--search-list"@) ==> args.search_list == 100,
        forall|i: int| #[trigger]
            last_given(options, "--search-list"@, i)
                ==> fits(unsigned(options[i][1]), u32::MAX as nat)
                && unsigned(options[i][1]).len() > 0
                    && args.search_list == number_of(unsigned(options[i][1])),
        not_given(options, "--beam"@) ==> args.beam_width == 4,
        forall|i: int| #[trigger]
            last_given(options, "--beam"@, i) ==> fits(unsigned(options[i][1]), usize::MAX as nat)
                && unsigned(options[i][1]).len() > 0
                    && args.beam_width == number_of(unsigned(options[i][1])),
        not_given(options, "--limit"@) ==> args.limit is None,
        forall|i: int| #[trigger]
            last_given(options, "--limit"@, i) ==> fits(unsigned(options[i][1]), usize::MAX as nat)
                && unsigned(options[i][1]).len() > 0 && args.limit is Some
                    && args.limit->Some_0 == number_of(
                unsigned(options[i][1]),
            ),
        not_given(options, "--concurrency"@) ==> args.concurrency == 1,
        forall|i: int| #[trigger]
            last_given(options, "--concurrency"@, i)
                ==> fits(unsigned(options[i][1]), usize::MAX as nat)
                && unsigned(options[i][1]).len() > 0
                    && args.concurrency == if number_of(unsigned(options[i][1])) == 0 {
                1
            } else {
                number_of(unsigned(options[i][1]))
            },
        args.queries@.len() > 0,
        args.search_list >= args.k,
        args.concurrency >= 1,
{
    assert(texts(argv@) =~= options.flatten());
    assert(command_line(texts(argv@)) == Ok::<ArgsView, ArgsErrorView>(args@));
    assert(with_options(no_options(), options.flatten()) is Ok);
    lemma_options_settle(
        no_options(),
        options,
        with_options(no_options(), options.flatten())->Ok_0,
    );
}

proof fn lemma_split(a: ArgsView, argv: Seq<Seq<char>>) -> (options: Seq<Seq<Seq<char>>>)
    requires
        with_options(a, argv) is Ok,
    ensures
        options.flatten() == argv,
        forall|i: int| 0 <= i < options.len() ==> is_option(#[trigger] options[i]),
    decreases argv.len(),
{
    if argv.len() == 0 {
        let none = Seq::<Seq<Seq<char>>>::empty();
        assert(none.flatten() =~= argv);
        none
    } else {
        let n = if takes_value(argv[0]) {
            2int
        } else {
            1int
        };
        let b = if n == 2 {
            with_value(a, argv[0], argv[1])->Ok_0
        } else {
            with_switch(a, argv[0])
        };
        let rest = lemma_split(b, argv.skip(n));
        let options = seq![argv.take(n)] + rest;
        assert(options.drop_first() =~= rest);
        assert(options.flatten() == options[0] + rest.flatten());
        assert(options.flatten() =~= argv);
        assert(is_option(options[0]));
        assert forall|i: int| 0 <= i < options.len() implies is_option(#[trigger] options[i]) by {
            if i > 0 {
                assert(options[i] == rest[i - 1]);
            }
        }
        options
    }
}

/// Every accepted command line is a list of options, each with its value if it
/// takes one.
pub proof fn accepted_command_lines_are_lists_of_options(argv: Vec<String>, args: Args)
    requires
        call_ensures(parse_args, (&argv,), Ok(args)),
    ensures
        exists|options: Seq<Seq<Seq<char>>>|
            {
                &&& (#[trigger] options.flatten()).len() == argv@.len()
                &&& forall|i: int|
                    0 <= i < argv@.len() ==> (#[trigger] argv@[i])@ == options.flatten()[i]
                &&& forall|i: int| 0 <= i < options.len() ==> is_option(#[trigger] options[i])
            },
{
    assert(command_line(texts(argv@)) == Ok::<ArgsView, ArgsErrorView>(args@));
    let options = lemma_split(no_options(), texts(argv@));
    assert(options.flatten().len() == argv@.len());
    assert forall|i: int| 0 <= i < argv@.len() implies (#[trigger] argv@[i])@
        == options.flatten()[i] by {
        assert(texts(argv@)[i] == argv@[i]@);
    }
}

/// What a refused command line is told, where the options `before` are in order
/// and `rest` follows them: a word that is no option is unknown, an option that
/// stands last lacks its value, a value that is no number is bad, and where
/// nothing follows, the query file is missing or the search list is too short.
pub proof fn refused_command_lines_are_told_why(
    argv: Vec<String>,
    before: Seq<Seq<char>>,
    rest: Seq<Seq<char>>,
    r: Result<Args, ArgsError>,
)
    requires
        call_ensures(parse_args, (&argv,), r),
        with_options(no_options(), before) is Ok,
        (before + rest).len() == argv@.len(),
        forall|i: int| 0 <= i < argv@.len() ==> (#[trigger] argv@[i])@ == (before + rest)[i],
    ensures
        rest.len() > 0 && !takes_value(rest[0]) && !is_switch(rest[0]) ==> (r matches Err(
            ArgsError::Unknown(arg),
        ) && arg@ == rest[0]),
        rest.len() == 1 && takes_value(rest[0]) ==> (r matches Err(ArgsError::MissingValue(arg))
            && arg@ == rest[0]),
        rest.len() > 1 && (rest[0] == "--k"@ || rest[0] == "--search-list"@) && !(unsigned(
            rest[1],
        ).len() > 0 && fits(unsigned(rest[1]), u32::MAX as nat)) ==> (r matches Err(
            ArgsError::BadNumber(arg, e),
        ) && arg@ == rest[0]
            && read_number(rest[1], u32::MAX as nat) == Err::<nat, NumberError>(e)),
        rest.len() > 1 && (rest[0] == "--beam"@ || rest[0] == "--limit"@ || rest[0]
            == "--concurrency"@) && !(unsigned(rest[1]).len() > 0 && fits(
            unsigned(rest[1]),
            usize::MAX as nat,
        )) ==> (r matches Err(ArgsError::BadNumber(arg, e)) && arg@ == rest[0] && read_number(
            rest[1],
            usize::MAX as nat,
        ) == Err::<nat, NumberError>(e)),
        rest.len() == 0 ==> {
            let a = with_options(no_options(), before)->Ok_0;
            &&& a.queries.len() == 0 <==> (r is Err && r->Err_0 is NoQueries)
            &&& a.queries.len() > 0 && a.search_list < a.k ==> (r matches Err(
                ArgsError::ListBelowK { search_list, k },
            ) && search_list == a.search_list && k == a.k)
            &&& a.queries.len() > 0 && a.search_list >= a.k ==> (r matches Ok(args) && {
                &&& args.server@ == a.server
                &&& args.queries@ == a.queries
                &&& args.k == a.k
                &&& args.search_list == a.search_list
                &&& args.beam_width == a.beam_width
                &&& args.flat == a.flat
                &&& args.limit == a.limit
                &&& args.concurrency == if a.concurrency == 0 {
                    1
                } else {
                    a.concurrency
                }
                &&& args.batch == a.batch
                &&& args.quiet == a.quiet
            })
        },
{
    assert(texts(argv@) =~= before + rest);
    options_add_up(no_options(), before, rest);
    lemma_names_differ();
    if rest.len() > 1 {
        numbers_are_read_from_their_digits(rest[1], u32::MAX as nat);
        numbers_are_read_from_their_digits(rest[1], usize::MAX as nat);
    }
    if rest.len() == 0 {
        assert(before + rest =~= before);
    }
    match r {
        Ok(args) => {
            assert(command_line(before + rest) == Ok::<ArgsView, ArgsErrorView>(args@));
        },
        Err(e) => {
            assert(command_line(before + rest) == Err::<ArgsView, ArgsErrorView>(e@));
        },
    }
}

/// What the user is told of a refused command line.
pub proof fn refusals_name_the_option(e: ArgsError, s: String, c: Option<&'static str>)
    requires
        call_ensures(ArgsError::message, (&e,), s),
        call_ensures(ArgsError::cause, (&e,), c),
    ensures
        e matches ArgsError::MissingValue(arg) ==> s@ == "missing value after "@ + arg@,
        e matches ArgsError::BadNumber(arg, n) ==> s@ == arg@ && c is Some,
        e matches ArgsError::BadNumber(_, NumberError::Empty) ==> c->Some_0@
            == "cannot parse integer from empty string"@,
        e matches ArgsError::BadNumber(_, NumberError::InvalidDigit) ==> c->Some_0@
            == "invalid digit found in string"@,
        e matches ArgsError::BadNumber(_, NumberError::PosOverflow) ==> c->Some_0@
            == "number too large to fit in target type"@,
        e matches ArgsError::Unknown(arg) ==> s@ == "unknown argument: "@ + arg@,
        e is NoQueries ==> s@ == "--queries <file.fbin> is required"@,
        e matches ArgsError::ListBelowK { search_list, k } ==> s@ == "--search-list ("@ + decimal(
            search_list as nat,
        ) + ") must be >= --k ("@ + decimal(k as nat) + ")"@,
        !(e is BadNumber) ==> c is None,
{
}

} // verus!
