# tino

A tiny init process for containers. It starts one command, forwards signals to it, reaps what is
left behind, and passes on its exit code. It can restrict the command with Landlock: where it may
write, what it may execute, which TCP ports it may use, and more.

## Layout

- `src/` is the library: every rule of the program, with contracts that Verus proves. It does no
  input or output. What it has to know about files it asks for, as a `Question`, and goes on when
  the answer is among its `facts`. What has to be done step by step (supervising, restricting,
  starting the command, writing the configuration file) is a function from a state and an event to
  the next state and the next request.
- `app/` is the program: it answers the questions, performs the requests, and reads and prints.
- `tests/` runs the library.

The promises that hold of the whole are proof functions whose names begin with `law_`.
