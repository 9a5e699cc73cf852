# claude_usage

Usage metrics for a subscription with rolling limits: what the current five-hour
block has used, how fast tokens and percentages are being consumed, when a limit
runs out, and how the numbers are fetched.

- `src/` is the verified library. It decides everything and reaches nothing: no
  files, no network, no clock. Floating-point amounts pass through it as binary64
  bit patterns (`binary64`), which it compares and picks between; message costs are
  named by the positions of their messages.
- `app/` reaches the files, the keychain and the service, does the floating-point
  arithmetic, and asks the library what to do next. What belongs to the surrounding
  program (the names of the service, the keychain, reading local messages) comes in
  through its `Host` trait.
- `tests/` runs the library on concrete values.

Statements about the library as a whole are the public proof functions whose names
begin with `law_`.
