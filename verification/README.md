# camera_collision

Keeps a third-person camera from being occluded by the voxels around its target.

`src/` is the verified library. `controller` takes a frame of camera movement from input to
placement; `frame` lists what a frame can wait for and the events that answer it; `ranges` finds the
stretches of a search path that are not obstructed; `selection` chooses among them; `laws` and
`frame_laws` state what holds of all this as a whole. The library is generic over the type `S` of
lengths, which it carries and never computes with.

`app/` drives the controller: it does the floating-point geometry, and reaches the editor's camera
and voxel map through traits.
