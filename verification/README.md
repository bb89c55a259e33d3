# rust_kinit

A Kerberos client library verified with Verus, and the `kinit -kt` /
`klist` programs around it.

## Layout

- `src/` — the verified library:
  - `bytes`, `text`, `ccache_format`, `ccache`, `ccache_laws`: the MIT file
    credential cache (FCC v4), its byte-level model and its laws (round
    trips, cut encodings, the skipped header);
  - `constants`, `crypto`, `system`, `credential`: protocol numbers, the
    calls into `kerberos_crypto`, randomness and the clock, and the
    credential a client holds;
  - `gss`: GSS-API WRAP tokens (integrity only) with their sequence numbers;
  - `ap_req`: AP-REQ messages with the GSS checksum and a subkey;
  - `tgs`: the TGS exchange — the TGS-REQ and the reading of the reply;
  - `der`: which DER encodings the reader of the Kerberos messages takes
    without panicking, and the check run on each reply before it is read;
  - `auth`: the options and last step of the TGT → TGS → AP-REQ chain;
  - `kinit`: `name@REALM`, the key choice in a keytab, the cache of a TGT;
  - `krb5_conf`: the KDC of a realm in `krb5.ini`;
  - `klist`, `fmt`, `strs`: what `klist` prints, numerals and string helpers.
- `tests/` — tests of the library with the real outside crates.
- `app/` — the programs: arguments, environment, files, DNS and the network.
