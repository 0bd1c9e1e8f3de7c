# log_analyzer

A log analyzer for a robot's master-control and arm-decision logs, with its
analysis logic written in Verus and proved against its contracts.

- `src/` is the verified library: reading timestamped log lines, detecting
  rounds, major flows, navigation flows and arm-decision tasks, the CSV tables,
  the Gantt chart content on the time axis that leaves out pauses, the standard
  timelines, configuration defaults and merging, file discovery and plugin
  selection, the workflow orchestrator's decisions, the remote command texts and
  the interactive view's state; `pipeline` composes one whole analysis of a
  log's text, errors included, so that the program only reads and writes.
- `app/` is the program around it: command-line parsing, reading files and the
  configuration, SSH, drawing the charts and writing the tables.
- `tests/` exercise the library on concrete values.

Times are kept as integer nanoseconds since the epoch throughout the library;
the program converts them to seconds only to print and draw.
