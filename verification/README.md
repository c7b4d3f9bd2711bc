# thermostat_bridge

A thermostat plugin for a home hub. It reads temperature sensors, calls for
heating or cooling, switches actuators without cycling them too fast, and keeps
its configuration and the hub's picture of it up to date.

- `src/` is the verified library. It decides; it performs no I/O.
  - `config`: the configuration, its defaults and when it is accepted
  - `runtime`: one thermostat: commands, retained state, recalculation and the
    state that it publishes
  - `table`: the thermostats by their ids
  - `bridge`: what each event changes, and what is to be published, subscribed
    and written back after it
  - `laws`: what holds across events
  - `json`, `instant`, `quantity`, `text`: JSON values, points in time, floats by
    their bits, strings
- `app/` is the plugin around it: files, the broker, the hub, and the
  floating-point arithmetic of the control loop.
- `tests/` runs the library on concrete values.
