# robot_dog_rust

A controller for quadruped robots such as Mini Pupper 2 that turns natural
language into safe, structured action plans, either through an
OpenAI-compatible chat model or through offline keyword rules, and renders
them as text, JSON or a ROS2 script draft. It runs as a command-line tool or
as an HTTP edge gateway (`/healthz`, `/v1/plan`).

Layout:

- `src/` is the library, verified with Verus: the offline planner, plan
  normalisation (speed and turn limits), the text and ROS2 renderings, the
  system prompt and reply handling for the chat model, and the decisions of
  the gateway and the command line. Every public function has a contract,
  and the laws (normalisation is idempotent and keeps plans within the
  limits, the offline planner never gives an empty plan, and so on) are
  proof functions beside the code they speak of.
- `app/` is the program around it: argument parsing, environment, standard
  input, the HTTP client and server, and JSON (de)serialisation.
- `tests/` runs the library on concrete inputs.

Speeds and angles are fixed-point numbers in thousandths inside the library
(mm/s, mrad/s, thousandths of a degree); the JSON form carries them as
floating-point numbers and `app/wire.rs` converts between the two. When
the library writes such a number with one to three decimals, it writes the
single-precision float nearest to it, rounded as `{:.N}` rounds a float.
