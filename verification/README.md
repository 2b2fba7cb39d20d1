# moxcms

Colour lookup-table interpolation and iccMAX profile readers, verified with Verus. The library
is for x86_64.

- `src/conversions`: Q0.15 fixed-point interpolators (tetrahedral, trilinear, pyramidal and
  prismatic) on vectors of eight and sixteen 16-bit lanes. The vectors are those of `magetypes`,
  on the AVX2 tier where `archmage` finds it and on the scalar tier on other processors; what
  comes out is the same on both. `laws` and `accuracy` state what holds of all methods.
- `src/iccmax`: readers for `utf8`, `tstr`, `cept`, `mpet`, `cvst`, `matf`, `fl32` and `curf`
  data, the choice of curve segments, and the recognition of well-known primaries and transfer
  curves. `laws` states what holds of the readers, and `curve_bytes` that every curve is read back
  from the bytes it is stored as. Floating-point numbers are kept as bit patterns;
  `src/float_bits.rs` says what a pattern is worth and compares patterns.
- `app`: the arithmetic on floating-point numbers around the library: the single-precision
  interpolators, the evaluation of segmented and parametric curves, and the reference transfer
  curves.
- `tests`: tests of the library, among them comparisons with the machine's own floating point.
