# nftables_expr

Encoding and decoding of the attributes of four nftables expressions
(`cmp`, `immediate`, `meta`, `payload`), verified with Verus.

- `src/bytes.rs`: byte orders, integer encodings, 4-byte alignment.
- `src/nla.rs`: raw netlink attributes, the layout of a run of attributes
  and the proof that splitting emitted attributes gives them back.
- `src/netlink.rs`: the contracts assumed of `netlink_packet_core`.
- `src/register.rs`: nftables registers and their numbers.
- `src/expression/`: one module per expression, each with its decoding
  specification, the verified `kind`, `value_len`, `emit_value`, `parse`
  (and `is_nested` where the expression carries nested data), and the
  proofs that decoding an emitted value gives the attribute back.
- `app/lib.rs`: the `Nla` and `Parseable` implementations of
  `netlink_packet_core` on copies of the expression types.

Netlink uses the host's byte order for attribute headers and most numbers;
the contracts name it `host_order()`, after vstd's `endianness()`.
