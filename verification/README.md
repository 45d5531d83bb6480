# fmu_runner

Loads and runs FMUs, the packaged simulation models of the FMI 2.0 standard.

- `src/` decides, and is verified with Verus. It says where the dynamic library of
  a model stands, names instances, makes up the calls of the FMI interface as
  values, and turns the replies into results.
- `app/` reads archives, opens dynamic libraries and makes the calls.
- `tests/` runs the library on concrete values.
