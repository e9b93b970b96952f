# DiskANN3 REST service

The rules of a REST service for nearest-neighbour search over a DiskANN disk
index, and of the command-line client that queries it, written in Verus.

| Module | Contents |
|--------|----------|
| `config` | the server's configuration and the search parameters it gives to a request |
| `inputs` | distance measures and element types |
| `loader` | the files, the cache and the limits of an index |
| `serve` | routes, checks on requests, and the stages from a request to its reply |
| `queue` | the way into the bounded request queue |
| `args` | the client's command line |
| `double` | rounding as double-precision arithmetic does it |
| `fbin` | query files |
| `client` | what the client sends, and what it shows |
| `summary` | the client's report on a run |
| `text` | decimal numbers, comparison and trimming of texts |
| `laws` | what holds of client and server together |

`app/` holds the two programs: HTTP, JSON, files, threads and the searcher. The
binary is the client when it is started as `diskann3-client`, and the server
otherwise (`serve <serve.json>`).
