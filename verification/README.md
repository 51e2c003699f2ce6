# Axactor

The decisions of an actor runtime, verified with Verus, and a thin crate that
runs them on Tokio.

* Actors handle their messages one after the other. An actor that panics is
  built again, after a wait that doubles from one restart to the next, for as
  long as its policy allows it.
* On shutdown an actor stops at once, or handles what is left in its mailbox
  until a deadline.
* Each actor has a name of its own within its system. A registry finds actors
  by key, and forgets them when they end.
* The `impl` block of an actor is expanded into the type of its messages and
  the methods of its handle.

## `src/`: the library `axactor`

| Module | What it holds |
| --- | --- |
| `time` | spans of time, and the wait before a restart |
| `config`, `context`, `error` | settings, the context of an actor, errors |
| `meter` | what is counted and measured of a mailbox |
| `task` | the life of one actor as a machine: events in, actions out |
| `life` | what holds over the whole life of an actor |
| `keys`, `rt`, `handle` | maps by key, the actors of a system, their handles |
| `mailbox` | the sending side of a mailbox, answers and time limits |
| `registry` | actors by key |
| `refs`, `obs` | which actors are idle, which messages are slow |
| `text`, `naming` | numbers as text, the names of methods and messages |
| `syntax`, `shape` | what is read of the source of an actor |
| `expand`, `expand_laws` | the expansion, and what holds of it |

The proof functions whose names begin with `law_` state what holds of the
library as a whole.

## `app/`: the crate `axactor_tokio`

Awaits, catches panics, locks and logs around the library, and writes out the
tokens of an expansion for a procedural macro. Restarts need
`panic = "unwind"`: with `panic = "abort"` no panic can be caught.
