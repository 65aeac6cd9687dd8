# jist

A tracker for work in progress. A session is a branch `jist-<name>` in a private
repository next to the one you work in; one user on one machine at a time claims
it, works on it and pushes it.

The library under `src/` holds everything that `jist` decides, verified with
Verus. It does no input or output. A workflow is a function of its arguments and
of the replies that were recorded so far: where the log of replies ends, it names
the request that it needs answered next. The program under `app/` performs the
request, records the reply and runs the workflow again. The contract of a
workflow says for every log what it makes of it.

- `exchange`, `ask`, `command`: requests, replies and logs; the environment, the
  clocks and the terminal; running `git`, `gh` and `hostname`.
- `text`, `style`, `time`: text as sequences of characters, terminal colors,
  durations and calendar times.
- `claim`, `sync`, `session`, `repository`: who claims a session, how far files
  agree with its remote branch, names and branches, the private repository.
- `status`, `workflow`, `work`, `cli`: the pages that are shown, what can be done
  to a session, the watch that pushes after a quiet period, and the commands.
- `laws`: what holds of the library as a whole. Claims are read back as they were
  written, nobody but the claimee pushes, nothing is deleted unconfirmed, work
  ends with an attempt to give the claim back, and every workflow can be run
  again with one more reply.
