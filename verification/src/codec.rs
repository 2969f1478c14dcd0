//! The wire format of the one structured entry-point input.
//!
//! A `StartService` request body is a flat, length-prefixed record:
//! seven byte-string fields (listen address, dependency name, dependency
//! address, and the four attestation fields), then a little-endian entry
//! count and that many audit entries, each a length-prefixed name followed
//! by an eight-byte little-endian measurement.  Lengths and the count are
//! four-byte little-endian.  The whole input must be consumed: trailing
//! bytes make the request malformed.

use vstd::prelude::*;
use crate::config::{AuditEntry, ConfigModel, ServiceConfig, entry_model};
use crate::attest::AttestationConfig;

verus! {

use vstd::arithmetic::div_mod::{
    lemma_div_denominator, lemma_div_is_ordered, lemma_fundamental_div_mod, lemma_small_mod,
};

/// The little-endian value of the four bytes at `i`.
pub open spec fn le32_at(s: Seq<u8>, i: int) -> int
    recommends
        0 <= i,
        i + 4 <= s.len(),
{
    s[i] + s[i + 1] * 0x100 + s[i + 2] * 0x10000 + s[i + 3] * 0x1000000
}

/// The little-endian value of the eight bytes at `i`.
pub open spec fn le64_at(s: Seq<u8>, i: int) -> int
    recommends
        0 <= i,
        i + 8 <= s.len(),
{
    s[i] + s[i + 1] * 0x100 + s[i + 2] * 0x10000 + s[i + 3] * 0x1000000 + s[i + 4] * 0x100000000
        + s[i + 5] * 0x10000000000 + s[i + 6] * 0x1000000000000 + s[i + 7] * 0x100000000000000
}

/// Parses one length-prefixed byte-string field at offset `i`: the field's
/// bytes and the offset just past them, or nothing when the input is too
/// short for the prefix or the announced length.
pub open spec fn parse_field(s: Seq<u8>, i: int) -> Option<(Seq<u8>, int)>
    recommends
        0 <= i,
{
    if i + 4 <= s.len() {
        let n = le32_at(s, i);
        if i + 4 + n <= s.len() {
            Some((s.subrange(i + 4, i + 4 + n), i + 4 + n))
        } else {
            None
        }
    } else {
        None
    }
}

/// Parses one audit entry at offset `i`: a length-prefixed name followed
/// by an eight-byte measurement.
pub open spec fn parse_entry(s: Seq<u8>, i: int) -> Option<((Seq<u8>, u64), int)>
    recommends
        0 <= i,
{
    match parse_field(s, i) {
        None => None,
        Some((name, j)) => if j + 8 <= s.len() {
            Some(((name, le64_at(s, j) as u64), j + 8))
        } else {
            None
        },
    }
}

/// Parses exactly `k` audit entries starting at offset `i`.
pub open spec fn parse_entries(s: Seq<u8>, i: int, k: nat) -> Option<(Seq<(Seq<u8>, u64)>, int)>
    recommends
        0 <= i,
    decreases k,
{
    if k == 0 {
        Some((Seq::empty(), i))
    } else {
        match parse_entry(s, i) {
            None => None,
            Some((e, j)) => match parse_entries(s, j, (k - 1) as nat) {
                None => None,
                Some((rest, m)) => Some((seq![e] + rest, m)),
            },
        }
    }
}

/// Parses a whole `StartService` request body.  The parse fails on a
/// truncated field, a short entry list, or trailing bytes.
pub open spec fn parse_config(s: Seq<u8>) -> Option<ConfigModel> {
    match parse_field(s, 0) {
        None => None,
        Some((listen_address, i1)) => match parse_field(s, i1) {
            None => None,
            Some((dependency_name, i2)) => match parse_field(s, i2) {
                None => None,
                Some((dependency_address, i3)) => match parse_field(s, i3) {
                    None => None,
                    Some((algorithm, i4)) => match parse_field(s, i4) {
                        None => None,
                        Some((url, i5)) => match parse_field(s, i5) {
                            None => None,
                            Some((key, i6)) => match parse_field(s, i6) {
                                None => None,
                                Some((spid, i7)) => if i7 + 4 <= s.len() {
                                    match parse_entries(s, i7 + 4, le32_at(s, i7) as nat) {
                                        None => None,
                                        Some((audit, end)) => if end == s.len() {
                                            Some(
                                                ConfigModel {
                                                    listen_address,
                                                    dependency_name,
                                                    dependency_address,
                                                    algorithm,
                                                    url,
                                                    key,
                                                    spid,
                                                    audit,
                                                },
                                            )
                                        } else {
                                            None
                                        },
                                    }
                                } else {
                                    None
                                },
                            },
                        },
                    },
                },
            },
        },
    }
}

/// Reads the four-byte little-endian value at `i`.
fn read_u32(bytes: &Vec<u8>, i: usize) -> (r: Option<(u32, usize)>)
    ensures
        match r {
            Some((n, j)) => i + 4 <= bytes@.len() && n == le32_at(bytes@, i as int) && j == i + 4,
            None => i + 4 > bytes@.len(),
        },
{
    if bytes.len() < 4 || i > bytes.len() - 4 {
        return None;
    }
    let n = bytes[i] as u32 + bytes[i + 1] as u32 * 0x100 + bytes[i + 2] as u32 * 0x10000
        + bytes[i + 3] as u32 * 0x1000000;
    Some((n, i + 4))
}

/// Reads the eight-byte little-endian value at `i`.
fn read_u64(bytes: &Vec<u8>, i: usize) -> (r: Option<(u64, usize)>)
    ensures
        match r {
            Some((n, j)) => i + 8 <= bytes@.len() && n == le64_at(bytes@, i as int) && j == i + 8,
            None => i + 8 > bytes@.len(),
        },
{
    if bytes.len() < 8 || i > bytes.len() - 8 {
        return None;
    }
    let n = bytes[i] as u64 + bytes[i + 1] as u64 * 0x100 + bytes[i + 2] as u64 * 0x10000
        + bytes[i + 3] as u64 * 0x1000000 + bytes[i + 4] as u64 * 0x100000000
        + bytes[i + 5] as u64 * 0x10000000000 + bytes[i + 6] as u64 * 0x1000000000000
        + bytes[i + 7] as u64 * 0x100000000000000;
    Some((n, i + 8))
}

/// Reads one length-prefixed byte-string field at `i`.
fn read_field(bytes: &Vec<u8>, i: usize) -> (r: Option<(Vec<u8>, usize)>)
    ensures
        match r {
            Some((v, j)) => parse_field(bytes@, i as int) == Some((v@, j as int)) && i <= j
                <= bytes@.len(),
            None => parse_field(bytes@, i as int) is None,
        },
{
    let (n32, j) = match read_u32(bytes, i) {
        None => {
            return None;
        },
        Some(p) => p,
    };
    let n = n32 as usize;
    if n > bytes.len() - j {
        return None;
    }
    let mut out: Vec<u8> = Vec::new();
    let mut k: usize = 0;
    while k < n
        invariant
            k <= n,
            j + n <= bytes@.len(),
            bytes@.len() <= usize::MAX,
            out@ == bytes@.subrange(j as int, j + k),
        decreases n - k,
    {
        out.push(bytes[j + k]);
        proof {
            assert(out@ =~= bytes@.subrange(j as int, j + k + 1));
        }
        k = k + 1;
    }
    Some((out, j + n))
}

/// Reads one audit entry at `i`.
fn read_entry(bytes: &Vec<u8>, i: usize) -> (r: Option<(AuditEntry, usize)>)
    ensures
        match r {
            Some((e, j)) => parse_entry(bytes@, i as int) == Some((entry_model(e), j as int)) && i
                <= j <= bytes@.len(),
            None => parse_entry(bytes@, i as int) is None,
        },
{
    let (name, j) = match read_field(bytes, i) {
        None => {
            return None;
        },
        Some(p) => p,
    };
    let (measurement, j2) = match read_u64(bytes, j) {
        None => {
            return None;
        },
        Some(p) => p,
    };
    Some((AuditEntry { service_name: name, measurement }, j2))
}

/// Decodes a `StartService` request body into a configuration, or nothing
/// exactly when the bytes do not form one.
pub fn decode_config(bytes: &Vec<u8>) -> (r: Option<ServiceConfig>)
    ensures
        match r {
            Some(c) => parse_config(bytes@) == Some(c@),
            None => parse_config(bytes@) is None,
        },
{
    let (listen_address, i1) = match read_field(bytes, 0) {
        None => {
            return None;
        },
        Some(p) => p,
    };
    let (dependency_name, i2) = match read_field(bytes, i1) {
        None => {
            return None;
        },
        Some(p) => p,
    };
    let (dependency_address, i3) = match read_field(bytes, i2) {
        None => {
            return None;
        },
        Some(p) => p,
    };
    let (algorithm, i4) = match read_field(bytes, i3) {
        None => {
            return None;
        },
        Some(p) => p,
    };
    let (url, i5) = match read_field(bytes, i4) {
        None => {
            return None;
        },
        Some(p) => p,
    };
    let (key, i6) = match read_field(bytes, i5) {
        None => {
            return None;
        },
        Some(p) => p,
    };
    let (spid, i7) = match read_field(bytes, i6) {
        None => {
            return None;
        },
        Some(p) => p,
    };
    let (count, i8) = match read_u32(bytes, i7) {
        None => {
            return None;
        },
        Some(p) => p,
    };
    let ghost start = i8 as int;
    let ghost total = count as nat;
    let mut audit: Vec<AuditEntry> = Vec::new();
    let ghost mut acc: Seq<(Seq<u8>, u64)> = Seq::empty();
    let mut idx: u32 = 0;
    let mut pos: usize = i8;
    while idx < count
        invariant
            idx <= count,
            pos <= bytes@.len(),
            acc == audit@.map_values(|e: AuditEntry| entry_model(e)),
            parse_entries(bytes@, start, total) is None ==> parse_config(bytes@) is None,
            parse_entries(bytes@, start, total) == (match parse_entries(
                bytes@,
                pos as int,
                (count - idx) as nat,
            ) {
                None => None,
                Some((rest, m)) => Some((acc + rest, m)),
            }),
        decreases count - idx,
    {
        let (e, j) = match read_entry(bytes, pos) {
            None => {
                proof {
                    assert(parse_entries(bytes@, pos as int, (count - idx) as nat) is None);
                }
                return None;
            },
            Some(p) => p,
        };
        proof {
            let remaining = (count - idx) as nat;
            let after = parse_entries(bytes@, j as int, (remaining - 1) as nat);
            if after is Some {
                let (rest2, m2) = after.unwrap();
                assert(acc + (seq![entry_model(e)] + rest2) =~= (acc.push(entry_model(e))
                    + rest2));
            }
            assert(audit@.push(e).map_values(|x: AuditEntry| entry_model(x)) =~= audit@.map_values(
                |x: AuditEntry| entry_model(x),
            ).push(entry_model(e)));
            acc = acc.push(entry_model(e));
        }
        audit.push(e);
        pos = j;
        idx = idx + 1;
    }
    proof {
        assert(parse_entries(bytes@, pos as int, 0) == Some((Seq::<(Seq<u8>, u64)>::empty(),
            pos as int)));
        assert(acc + Seq::<(Seq<u8>, u64)>::empty() =~= acc);
    }
    if pos != bytes.len() {
        return None;
    }
    let c = ServiceConfig {
        listen_address,
        dependency_name,
        dependency_address,
        attestation: AttestationConfig { algorithm, url, key, spid },
        audit,
    };
    Some(c)
}

/// The four little-endian bytes of `n`.
pub open spec fn le32_bytes(n: int) -> Seq<u8> {
    seq![
        (n % 0x100) as u8,
        ((n / 0x100) % 0x100) as u8,
        ((n / 0x10000) % 0x100) as u8,
        ((n / 0x1000000) % 0x100) as u8,
    ]
}

/// The eight little-endian bytes of `n`.
pub open spec fn le64_bytes(n: int) -> Seq<u8> {
    seq![
        (n % 0x100) as u8,
        ((n / 0x100) % 0x100) as u8,
        ((n / 0x10000) % 0x100) as u8,
        ((n / 0x1000000) % 0x100) as u8,
        ((n / 0x100000000) % 0x100) as u8,
        ((n / 0x10000000000) % 0x100) as u8,
        ((n / 0x1000000000000) % 0x100) as u8,
        ((n / 0x100000000000000) % 0x100) as u8,
    ]
}

/// One encoded byte-string field: its length prefix, then its bytes.
pub open spec fn enc_field(f: Seq<u8>) -> Seq<u8> {
    le32_bytes(f.len() as int) + f
}

/// One encoded audit entry.
pub open spec fn enc_entry(e: (Seq<u8>, u64)) -> Seq<u8> {
    enc_field(e.0) + le64_bytes(e.1 as int)
}

/// The encoded audit list, entry by entry.
pub open spec fn enc_entries(es: Seq<(Seq<u8>, u64)>) -> Seq<u8>
    decreases es.len(),
{
    if es.len() == 0 {
        Seq::empty()
    } else {
        enc_entry(es[0]) + enc_entries(es.drop_first())
    }
}

/// The encoded form of a whole configuration.
pub open spec fn enc_config(c: ConfigModel) -> Seq<u8> {
    enc_field(c.listen_address) + enc_field(c.dependency_name) + enc_field(c.dependency_address)
        + enc_field(c.algorithm) + enc_field(c.url) + enc_field(c.key) + enc_field(c.spid)
        + le32_bytes(c.audit.len() as int) + enc_entries(c.audit)
}

/// Whether a configuration fits the wire format: every length-prefixed
/// piece and the entry count must fit the four-byte prefix.
pub open spec fn encodable(c: ConfigModel) -> bool {
    c.listen_address.len() < 0x100000000 && c.dependency_name.len() < 0x100000000
        && c.dependency_address.len() < 0x100000000 && c.algorithm.len() < 0x100000000
        && c.url.len() < 0x100000000 && c.key.len() < 0x100000000 && c.spid.len() < 0x100000000
        && c.audit.len() < 0x100000000 && (forall|i: int|
        0 <= i < c.audit.len() ==> #[trigger] c.audit[i].0.len() < 0x100000000)
}

/// Appends the four little-endian bytes of `n`.
fn push_u32(out: &mut Vec<u8>, n: u32)
    ensures
        final(out)@ == old(out)@ + le32_bytes(n as int),
{
    out.push((n % 0x100) as u8);
    out.push(((n / 0x100) % 0x100) as u8);
    out.push(((n / 0x10000) % 0x100) as u8);
    out.push((n / 0x1000000) as u8);
    proof {
        assert(out@ =~= old(out)@ + le32_bytes(n as int));
    }
}

/// Appends the eight little-endian bytes of `n`.
fn push_u64(out: &mut Vec<u8>, n: u64)
    ensures
        final(out)@ == old(out)@ + le64_bytes(n as int),
{
    out.push((n % 0x100) as u8);
    out.push(((n / 0x100) % 0x100) as u8);
    out.push(((n / 0x10000) % 0x100) as u8);
    out.push(((n / 0x1000000) % 0x100) as u8);
    out.push(((n / 0x100000000) % 0x100) as u8);
    out.push(((n / 0x10000000000) % 0x100) as u8);
    out.push(((n / 0x1000000000000) % 0x100) as u8);
    out.push((n / 0x100000000000000) as u8);
    proof {
        assert(out@ =~= old(out)@ + le64_bytes(n as int));
    }
}

/// Appends one length-prefixed byte-string field.
fn push_field(out: &mut Vec<u8>, f: &Vec<u8>)
    requires
        f@.len() < 0x100000000,
    ensures
        final(out)@ == old(out)@ + enc_field(f@),
{
    push_u32(out, f.len() as u32);
    let ghost mid = out@;
    let mut k: usize = 0;
    while k < f.len()
        invariant
            k <= f@.len(),
            out@ == mid + f@.subrange(0, k as int),
        decreases f@.len() - k,
    {
        out.push(f[k]);
        proof {
            assert(out@ =~= mid + f@.subrange(0, k + 1));
        }
        k = k + 1;
    }
    proof {
        assert(f@.subrange(0, f@.len() as int) =~= f@);
        assert(out@ =~= old(out)@ + enc_field(f@));
    }
}

/// Encodes a configuration into a `StartService` request body, the exact
/// form `decode_config` reads back.
pub fn encode_config(c: &ServiceConfig) -> (r: Vec<u8>)
    requires
        encodable(c@),
    ensures
        r@ == enc_config(c@),
{
    let mut out: Vec<u8> = Vec::new();
    push_field(&mut out, &c.listen_address);
    push_field(&mut out, &c.dependency_name);
    push_field(&mut out, &c.dependency_address);
    push_field(&mut out, &c.attestation.algorithm);
    push_field(&mut out, &c.attestation.url);
    push_field(&mut out, &c.attestation.key);
    push_field(&mut out, &c.attestation.spid);
    push_u32(&mut out, c.audit.len() as u32);
    let ghost am = c@.audit;
    proof {
        assert(am.subrange(0, am.len() as int) =~= am);
    }
    let mut idx: usize = 0;
    while idx < c.audit.len()
        invariant
            idx <= c.audit@.len(),
            am == c@.audit,
            encodable(c@),
            am.len() == c.audit@.len(),
            out@ + enc_entries(am.subrange(idx as int, am.len() as int)) == enc_config(c@),
        decreases c.audit@.len() - idx,
    {
        let ghost before = out@;
        let ghost sub = am.subrange(idx as int, am.len() as int);
        proof {
            assert(sub[0] == am[idx as int]);
            assert(am[idx as int] == entry_model(c.audit@[idx as int]));
            assert(sub.drop_first() =~= am.subrange(idx + 1, am.len() as int));
        }
        push_field(&mut out, &c.audit[idx].service_name);
        push_u64(&mut out, c.audit[idx].measurement);
        proof {
            assert(out@ =~= before + enc_entry(am[idx as int]));
            assert(out@ + enc_entries(am.subrange(idx + 1, am.len() as int)) =~= before
                + enc_entries(sub));
        }
        idx = idx + 1;
    }
    proof {
        assert(enc_entries(am.subrange(am.len() as int, am.len() as int)) =~= Seq::<u8>::empty());
        assert(out@ + Seq::<u8>::empty() =~= out@);
    }
    out
}

/// The four little-endian bytes of `n` read back as `n`.
proof fn lemma_le32_value(s: Seq<u8>, i: int, n: int)
    requires
        0 <= i,
        i + 4 <= s.len(),
        0 <= n < 0x100000000,
        s[i] == (n % 0x100) as u8,
        s[i + 1] == ((n / 0x100) % 0x100) as u8,
        s[i + 2] == ((n / 0x10000) % 0x100) as u8,
        s[i + 3] == ((n / 0x1000000) % 0x100) as u8,
    ensures
        le32_at(s, i) == n,
{
    lemma_fundamental_div_mod(n, 0x100);
    lemma_fundamental_div_mod(n / 0x100, 0x100);
    lemma_fundamental_div_mod(n / 0x10000, 0x100);
    lemma_div_denominator(n, 0x100, 0x100);
    lemma_div_denominator(n, 0x10000, 0x100);
    lemma_div_is_ordered(n, 0xffffffff, 0x1000000);
    lemma_small_mod((n / 0x1000000) as nat, 0x100);
}

/// The eight little-endian bytes of `n` read back as `n`.
proof fn lemma_le64_value(s: Seq<u8>, i: int, n: int)
    requires
        0 <= i,
        i + 8 <= s.len(),
        0 <= n < 0x10000000000000000,
        s[i] == (n % 0x100) as u8,
        s[i + 1] == ((n / 0x100) % 0x100) as u8,
        s[i + 2] == ((n / 0x10000) % 0x100) as u8,
        s[i + 3] == ((n / 0x1000000) % 0x100) as u8,
        s[i + 4] == ((n / 0x100000000) % 0x100) as u8,
        s[i + 5] == ((n / 0x10000000000) % 0x100) as u8,
        s[i + 6] == ((n / 0x1000000000000) % 0x100) as u8,
        s[i + 7] == ((n / 0x100000000000000) % 0x100) as u8,
    ensures
        le64_at(s, i) == n,
{
    lemma_fundamental_div_mod(n, 0x100);
    lemma_fundamental_div_mod(n / 0x100, 0x100);
    lemma_fundamental_div_mod(n / 0x10000, 0x100);
    lemma_fundamental_div_mod(n / 0x1000000, 0x100);
    lemma_fundamental_div_mod(n / 0x100000000, 0x100);
    lemma_fundamental_div_mod(n / 0x10000000000, 0x100);
    lemma_fundamental_div_mod(n / 0x1000000000000, 0x100);
    lemma_div_denominator(n, 0x100, 0x100);
    lemma_div_denominator(n, 0x10000, 0x100);
    lemma_div_denominator(n, 0x1000000, 0x100);
    lemma_div_denominator(n, 0x100000000, 0x100);
    lemma_div_denominator(n, 0x10000000000, 0x100);
    lemma_div_denominator(n, 0x1000000000000, 0x100);
    lemma_div_is_ordered(n, 0xffffffffffffffff, 0x100000000000000);
    lemma_small_mod((n / 0x100000000000000) as nat, 0x100);
}

/// An encoded field parses back to its bytes, wherever it stands in the
/// input.
proof fn lemma_parse_field_enc(s: Seq<u8>, i: int, f: Seq<u8>)
    requires
        0 <= i,
        f.len() < 0x100000000,
        i + 4 + f.len() <= s.len(),
        s.subrange(i, i + 4 + f.len() as int) == enc_field(f),
    ensures
        parse_field(s, i) == Some((f, i + 4 + f.len() as int)),
{
    let n = f.len() as int;
    let seg = s.subrange(i, i + 4 + n);
    assert(s[i] == seg[0] && seg[0] == le32_bytes(n)[0]);
    assert(s[i + 1] == seg[1] && seg[1] == le32_bytes(n)[1]);
    assert(s[i + 2] == seg[2] && seg[2] == le32_bytes(n)[2]);
    assert(s[i + 3] == seg[3] && seg[3] == le32_bytes(n)[3]);
    lemma_le32_value(s, i, n);
    assert(s.subrange(i + 4, i + 4 + n) =~= f) by {
        assert forall|k: int| 0 <= k < n implies s[i + 4 + k] == f[k] by {
            assert(s[i + 4 + k] == seg[4 + k]);
            assert(seg[4 + k] == enc_field(f)[4 + k]);
        }
    }
}

/// An encoded audit entry parses back to the entry.
proof fn lemma_parse_entry_enc(s: Seq<u8>, i: int, e: (Seq<u8>, u64))
    requires
        0 <= i,
        e.0.len() < 0x100000000,
        i + enc_entry(e).len() <= s.len(),
        s.subrange(i, i + enc_entry(e).len() as int) == enc_entry(e),
    ensures
        parse_entry(s, i) == Some((e, i + enc_entry(e).len() as int)),
{
    let n = e.0.len() as int;
    let seg = s.subrange(i, i + enc_entry(e).len() as int);
    assert(s.subrange(i, i + 4 + n) =~= enc_field(e.0)) by {
        assert forall|k: int| 0 <= k < 4 + n implies s[i + k] == enc_field(e.0)[k] by {
            assert(s[i + k] == seg[k]);
            assert(seg[k] == enc_entry(e)[k]);
        }
    }
    lemma_parse_field_enc(s, i, e.0);
    let j = i + 4 + n;
    let m = e.1 as int;
    assert(s[j] == seg[4 + n] && seg[4 + n] == le64_bytes(m)[0]);
    assert(s[j + 1] == seg[4 + n + 1] && seg[4 + n + 1] == le64_bytes(m)[1]);
    assert(s[j + 2] == seg[4 + n + 2] && seg[4 + n + 2] == le64_bytes(m)[2]);
    assert(s[j + 3] == seg[4 + n + 3] && seg[4 + n + 3] == le64_bytes(m)[3]);
    assert(s[j + 4] == seg[4 + n + 4] && seg[4 + n + 4] == le64_bytes(m)[4]);
    assert(s[j + 5] == seg[4 + n + 5] && seg[4 + n + 5] == le64_bytes(m)[5]);
    assert(s[j + 6] == seg[4 + n + 6] && seg[4 + n + 6] == le64_bytes(m)[6]);
    assert(s[j + 7] == seg[4 + n + 7] && seg[4 + n + 7] == le64_bytes(m)[7]);
    lemma_le64_value(s, j, m);
    assert((e.0, le64_at(s, j) as u64) == e);
}

/// An encoded audit list parses back to the list, entry by entry.
proof fn lemma_parse_entries_enc(s: Seq<u8>, i: int, es: Seq<(Seq<u8>, u64)>)
    requires
        0 <= i,
        forall|k: int| 0 <= k < es.len() ==> #[trigger] es[k].0.len() < 0x100000000,
        i + enc_entries(es).len() <= s.len(),
        s.subrange(i, i + enc_entries(es).len() as int) == enc_entries(es),
    ensures
        parse_entries(s, i, es.len()) == Some((es, i + enc_entries(es).len() as int)),
    decreases es.len(),
{
    if es.len() == 0 {
        assert(es =~= Seq::<(Seq<u8>, u64)>::empty());
    } else {
        let e = es[0];
        let rest = es.drop_first();
        let seg = s.subrange(i, i + enc_entries(es).len() as int);
        let first_len = enc_entry(e).len() as int;
        assert(s.subrange(i, i + first_len) =~= enc_entry(e)) by {
            assert forall|k: int| 0 <= k < first_len implies s[i + k] == enc_entry(e)[k] by {
                assert(s[i + k] == seg[k]);
                assert(seg[k] == enc_entries(es)[k]);
            }
        }
        lemma_parse_entry_enc(s, i, e);
        let j = i + first_len;
        assert(s.subrange(j, j + enc_entries(rest).len() as int) =~= enc_entries(rest)) by {
            assert forall|k: int| 0 <= k < enc_entries(rest).len() implies s[j + k]
                == enc_entries(rest)[k] by {
                assert(s[j + k] == seg[first_len + k]);
                assert(seg[first_len + k] == enc_entries(es)[first_len + k]);
            }
        }
        assert(forall|k: int| 0 <= k < rest.len() ==> rest[k] == es[k + 1]);
        lemma_parse_entries_enc(s, j, rest);
        assert(seq![e] + rest =~= es);
    }
}

/// The two halves of a concatenation read back from it.
proof fn lemma_concat_parts(a: Seq<u8>, b: Seq<u8>)
    ensures
        (a + b).subrange(0, a.len() as int) == a,
        (a + b).subrange(a.len() as int, (a + b).len() as int) == b,
{
    assert((a + b).subrange(0, a.len() as int) =~= a);
    assert((a + b).subrange(a.len() as int, (a + b).len() as int) =~= b);
}

/// A subrange taken inside a prefix of `s` equals the same subrange of
/// the prefix.
proof fn lemma_subrange_transfer(s: Seq<u8>, t: Seq<u8>, a: int, b: int)
    requires
        0 <= a <= b <= t.len(),
        t.len() <= s.len(),
        s.subrange(0, t.len() as int) == t,
    ensures
        s.subrange(a, b) == t.subrange(a, b),
{
    assert(s.subrange(a, b) =~= t.subrange(a, b));
}

/// The offset just past the `k`-th length-prefixed field of an encoded
/// configuration.
spec fn enc_offset(c: ConfigModel, k: int) -> int {
    if k <= 0 {
        0
    } else if k == 1 {
        (4 + c.listen_address.len()) as int
    } else if k == 2 {
        (8 + c.listen_address.len() + c.dependency_name.len()) as int
    } else if k == 3 {
        (12 + c.listen_address.len() + c.dependency_name.len()
            + c.dependency_address.len()) as int
    } else if k == 4 {
        (16 + c.listen_address.len() + c.dependency_name.len() + c.dependency_address.len()
            + c.algorithm.len()) as int
    } else if k == 5 {
        (20 + c.listen_address.len() + c.dependency_name.len() + c.dependency_address.len()
            + c.algorithm.len() + c.url.len()) as int
    } else if k == 6 {
        (24 + c.listen_address.len() + c.dependency_name.len() + c.dependency_address.len()
            + c.algorithm.len() + c.url.len() + c.key.len()) as int
    } else {
        (28 + c.listen_address.len() + c.dependency_name.len() + c.dependency_address.len()
            + c.algorithm.len() + c.url.len() + c.key.len() + c.spid.len()) as int
    }
}

/// Splitting a known prefix of `s` into its two halves.
proof fn lemma_peel(s: Seq<u8>, a: Seq<u8>, b: Seq<u8>)
    requires
        a.len() + b.len() <= s.len(),
        s.subrange(0, (a.len() + b.len()) as int) == a + b,
    ensures
        s.subrange(0, a.len() as int) == a,
        s.subrange(a.len() as int, (a.len() + b.len()) as int) == b,
{
    lemma_concat_parts(a, b);
    lemma_subrange_transfer(s, a + b, 0, a.len() as int);
    lemma_subrange_transfer(s, a + b, a.len() as int, (a.len() + b.len()) as int);
}

/// The entry list, the entry count, and the seven-field prefix of an
/// encoded configuration stand at their own offsets.
#[verifier::rlimit(100)]
proof fn lemma_enc_parts_a(c: ConfigModel)
    ensures
        enc_config(c).len() == enc_offset(c, 7) + 4 + enc_entries(c.audit).len(),
        enc_config(c).subrange(enc_offset(c, 7) + 4, enc_config(c).len() as int) == enc_entries(
            c.audit,
        ),
        enc_config(c).subrange(enc_offset(c, 7), enc_offset(c, 7) + 4) == le32_bytes(
            c.audit.len() as int,
        ),
        enc_config(c).subrange(0, enc_offset(c, 7)) == enc_field(c.listen_address) + enc_field(
            c.dependency_name,
        ) + enc_field(c.dependency_address) + enc_field(c.algorithm) + enc_field(c.url)
            + enc_field(c.key) + enc_field(c.spid),
{
    let s = enc_config(c);
    let cb = le32_bytes(c.audit.len() as int);
    let ee = enc_entries(c.audit);
    let p7 = enc_field(c.listen_address) + enc_field(c.dependency_name) + enc_field(
        c.dependency_address,
    ) + enc_field(c.algorithm) + enc_field(c.url) + enc_field(c.key) + enc_field(c.spid);
    let p8 = p7 + cb;
    assert(s == p8 + ee);
    assert(s.subrange(0, s.len() as int) =~= s);
    lemma_peel(s, p8, ee);
    lemma_peel(s, p7, cb);
}

/// The three rearmost fields of the seven-field prefix stand at their own
/// offsets.
#[verifier::rlimit(100)]
proof fn lemma_enc_parts_b(c: ConfigModel)
    requires
        enc_offset(c, 7) <= enc_config(c).len(),
        enc_config(c).subrange(0, enc_offset(c, 7)) == enc_field(c.listen_address) + enc_field(
            c.dependency_name,
        ) + enc_field(c.dependency_address) + enc_field(c.algorithm) + enc_field(c.url)
            + enc_field(c.key) + enc_field(c.spid),
    ensures
        enc_config(c).subrange(enc_offset(c, 6), enc_offset(c, 7)) == enc_field(c.spid),
        enc_config(c).subrange(enc_offset(c, 5), enc_offset(c, 6)) == enc_field(c.key),
        enc_config(c).subrange(enc_offset(c, 4), enc_offset(c, 5)) == enc_field(c.url),
        enc_config(c).subrange(0, enc_offset(c, 4)) == enc_field(c.listen_address) + enc_field(
            c.dependency_name,
        ) + enc_field(c.dependency_address) + enc_field(c.algorithm),
{
    let s = enc_config(c);
    let p4 = enc_field(c.listen_address) + enc_field(c.dependency_name) + enc_field(
        c.dependency_address,
    ) + enc_field(c.algorithm);
    let p5 = p4 + enc_field(c.url);
    let p6 = p5 + enc_field(c.key);
    lemma_peel(s, p6, enc_field(c.spid));
    lemma_peel(s, p5, enc_field(c.key));
    lemma_peel(s, p4, enc_field(c.url));
}

/// The four foremost fields stand at their own offsets.
#[verifier::rlimit(100)]
proof fn lemma_enc_parts_c(c: ConfigModel)
    requires
        enc_offset(c, 4) <= enc_config(c).len(),
        enc_config(c).subrange(0, enc_offset(c, 4)) == enc_field(c.listen_address) + enc_field(
            c.dependency_name,
        ) + enc_field(c.dependency_address) + enc_field(c.algorithm),
    ensures
        enc_config(c).subrange(enc_offset(c, 3), enc_offset(c, 4)) == enc_field(c.algorithm),
        enc_config(c).subrange(enc_offset(c, 2), enc_offset(c, 3)) == enc_field(
            c.dependency_address,
        ),
        enc_config(c).subrange(enc_offset(c, 1), enc_offset(c, 2)) == enc_field(c.dependency_name),
        enc_config(c).subrange(0, enc_offset(c, 1)) == enc_field(c.listen_address),
{
    let s = enc_config(c);
    let p1 = enc_field(c.listen_address);
    let p2 = p1 + enc_field(c.dependency_name);
    let p3 = p2 + enc_field(c.dependency_address);
    lemma_peel(s, p3, enc_field(c.algorithm));
    lemma_peel(s, p2, enc_field(c.dependency_address));
    lemma_peel(s, p1, enc_field(c.dependency_name));
}

/// The four foremost fields of an encoded configuration parse back from
/// their own offsets.
#[verifier::rlimit(100)]
proof fn lemma_enc_segments_front(c: ConfigModel)
    requires
        encodable(c),
    ensures
        parse_field(enc_config(c), 0) == Some((c.listen_address, enc_offset(c, 1))),
        parse_field(enc_config(c), enc_offset(c, 1)) == Some((c.dependency_name, enc_offset(c, 2))),
        parse_field(enc_config(c), enc_offset(c, 2)) == Some((c.dependency_address, enc_offset(c, 3))),
        parse_field(enc_config(c), enc_offset(c, 3)) == Some((c.algorithm, enc_offset(c, 4))),
{
    let s = enc_config(c);
    lemma_enc_parts_a(c);
    lemma_enc_parts_b(c);
    lemma_enc_parts_c(c);
    lemma_parse_field_enc(s, 0, c.listen_address);
    lemma_parse_field_enc(s, enc_offset(c, 1), c.dependency_name);
    lemma_parse_field_enc(s, enc_offset(c, 2), c.dependency_address);
    lemma_parse_field_enc(s, enc_offset(c, 3), c.algorithm);
}

/// The three rearmost fields, the entry count and the entry list of an
/// encoded configuration parse back from their own offsets.
#[verifier::rlimit(100)]
proof fn lemma_enc_segments_back(c: ConfigModel)
    requires
        encodable(c),
    ensures
        parse_field(enc_config(c), enc_offset(c, 4)) == Some((c.url, enc_offset(c, 5))),
        parse_field(enc_config(c), enc_offset(c, 5)) == Some((c.key, enc_offset(c, 6))),
        parse_field(enc_config(c), enc_offset(c, 6)) == Some((c.spid, enc_offset(c, 7))),
        enc_offset(c, 7) + 4 <= enc_config(c).len(),
        le32_at(enc_config(c), enc_offset(c, 7)) == c.audit.len(),
        parse_entries(enc_config(c), enc_offset(c, 7) + 4, c.audit.len()) == Some(
            (c.audit, enc_config(c).len() as int),
        ),
{
    let s = enc_config(c);
    lemma_enc_parts_a(c);
    lemma_enc_parts_b(c);
    lemma_parse_field_enc(s, enc_offset(c, 4), c.url);
    lemma_parse_field_enc(s, enc_offset(c, 5), c.key);
    lemma_parse_field_enc(s, enc_offset(c, 6), c.spid);
    let o8 = enc_offset(c, 7);
    let count_bytes = s.subrange(o8, o8 + 4);
    assert(s[o8] == count_bytes[0] && s[o8 + 1] == count_bytes[1] && s[o8 + 2] == count_bytes[2]
        && s[o8 + 3] == count_bytes[3]);
    lemma_le32_value(s, o8, c.audit.len() as int);
    lemma_parse_entries_enc(s, o8 + 4, c.audit);
}

/// Round trip: a configuration that fits the wire format is read back
/// unchanged from its own encoding.  In particular an encoded
/// `StartService` request is never malformed.
#[verifier::rlimit(100)]
pub proof fn lemma_config_round_trip(c: ConfigModel)
    requires
        encodable(c),
    ensures
        parse_config(enc_config(c)) == Some(c),
{
    lemma_enc_segments_front(c);
    lemma_enc_segments_back(c);
    let s = enc_config(c);
    assert(parse_config(s).unwrap() =~= c);
}

} // verus!
