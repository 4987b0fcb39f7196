# account_bridge

The decisions behind two parts of a desktop application that manages accounts:

* the bridge to a browser extension, which takes HTTP requests on the local
  machine and imports accounts by their tokens;
* the automatic switch, which changes to another account when the quota of the
  one in use is exhausted.

`src/` is the library. Every function in it is verified with Verus against its
contract, but for a few wrappers around `chrono`, `uuid`, `serde_json` and the
standard library, whose contracts their doc comments explain. The library reads
and sends nothing: each part is a state that names the work to be done next, and
a step that takes what the work has led to. What holds of a whole exchange, a
whole refresh or a whole attempt to switch is proved in the functions whose
names start with `law_`.

`app/` carries the work out: it listens, asks the services and the account
store, and hands back what came of it.

`tests/` runs the library on concrete values.
