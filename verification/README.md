# raid-bdev

RAID block devices described by a URI, such as
`raid0:///name?strip_size=64&children=dev1,dev2`.

The library under `src/` is verified with Verus:

- `level`: the RAID levels and the rules that each of them sets;
- `uri`: URIs, taken apart into scheme, path and parameters;
- `raid`: which device a URI describes, or what is wrong with the URI;
- `create`, `destroy`: what to ask of the device layer, and what to make of its
  answers, when a device is created or destroyed;
- `error`: the errors;
- `text`, `uuids`: splitting, joining, decimal numbers, and UUIDs as numbers.

What follows for all inputs stands there as public proof functions whose names
begin with `law_`.

`app/` runs the library against a device layer, which it takes as a trait.
