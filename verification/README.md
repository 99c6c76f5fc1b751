# asset_manager

An asset manager which loads and provides access to assets, such as textures and meshes. Its
behaviour is stated in contracts and proved with Verus.

- `src/` is the library. `AssetManager` dispatches raw data to loading methods and searches asset
  stores; `Assets` keeps what was loaded. `mesh` and `texture` make assets of Wavefront `.obj` data
  and of images. `laws` and `history` state what holds of the manager as a whole.
- `app/` adds what the library leaves out: files, environment variables and the graphics device.
- `tests/` runs the library with the crates that it is built on.
