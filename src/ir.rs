//! The intermediate representation as bytes: the version record that is
//! appended to it, and the table of section-name fixes applied to it.
use vstd::prelude::*;

verus! {

/// Object-format version written into every versioned IR file.
pub const OBJECT_FILE_VERSION: u64 = 1;

/// Lowest runtime version that can load the objects built here.
pub const EXPECTED_RUNTIME_VERSION: u64 = 3;

/// The bytes of an ASCII text.
pub open spec fn ascii_bytes(s: Seq<char>) -> Seq<u8> {
    Seq::new(s.len(), |i: int| s[i] as u8)
}

/// `s` begins with `p`.
pub open spec fn starts_with(s: Seq<u8>, p: Seq<u8>) -> bool {
    p.len() <= s.len() && s.subrange(0, p.len() as int) == p
}

/// Decimal digits of `n`, most significant first.
pub open spec fn decimal(n: nat) -> Seq<u8>
    decreases n,
{
    if n < 10 {
        seq![(48 + n) as u8]
    } else {
        decimal(n / 10).push((48 + n % 10) as u8)
    }
}

/// One declaration line of the version record: a named 64-bit constant in
/// the reserved `_version` section.
pub open spec fn version_line(name: Seq<u8>, value: nat) -> Seq<u8> {
    ascii_bytes("@"@) + name + ascii_bytes(" = global i64 "@) + decimal(value) + ascii_bytes(
        ", section \"_version\", align 1\n"@,
    )
}

/// The version record block: the object-format version, then the expected
/// runtime version.
pub open spec fn version_record_bytes() -> Seq<u8> {
    version_line(ascii_bytes("_OBJECT_VERSION"@), OBJECT_FILE_VERSION as nat) + version_line(
        ascii_bytes("_EXPECTED_RUNTIME_VERSION"@),
        EXPECTED_RUNTIME_VERSION as nat,
    )
}

pub open spec fn malformed_memory() -> Seq<u8> {
    ascii_bytes("section \",_memory\""@)
}

pub open spec fn wellformed_memory() -> Seq<u8> {
    ascii_bytes("section \"_memory\""@)
}

pub open spec fn malformed_init_memory() -> Seq<u8> {
    ascii_bytes("section \",_init_memory\""@)
}

pub open spec fn wellformed_init_memory() -> Seq<u8> {
    ascii_bytes("section \"_init_memory\""@)
}

#[via_fn]
proof fn patched_decreases(s: Seq<u8>) {
    reveal_strlit("section \",_memory\"");
    reveal_strlit("section \",_init_memory\"");
}

/// The text with every malformed section name of the fix table replaced by
/// its well-formed spelling, scanning from the left; all other bytes kept.
pub open spec fn patched(s: Seq<u8>) -> Seq<u8>
    decreases s.len(),
    via patched_decreases
{
    if s.len() == 0 {
        s
    } else if starts_with(s, malformed_memory()) {
        wellformed_memory() + patched(s.skip(malformed_memory().len() as int))
    } else if starts_with(s, malformed_init_memory()) {
        wellformed_init_memory() + patched(s.skip(malformed_init_memory().len() as int))
    } else {
        seq![s[0]] + patched(s.skip(1))
    }
}

/// No malformed section name of the fix table begins anywhere in `s`.
pub open spec fn free_of_malformed(s: Seq<u8>) -> bool {
    forall|i: int|
        0 <= i <= s.len() ==> !starts_with(#[trigger] s.skip(i), malformed_memory())
            && !starts_with(s.skip(i), malformed_init_memory())
}

/// No byte of `u` is an `s`, the first letter of every table entry.
pub open spec fn lacks_s(u: Seq<u8>) -> bool {
    forall|j: int| 0 <= j < u.len() ==> u[j] != 115u8
}

proof fn lemma_table_shape()
    ensures
        malformed_memory().len() == 18,
        wellformed_memory().len() == 17,
        malformed_init_memory().len() == 23,
        wellformed_init_memory().len() == 22,
        malformed_memory()[0] == 115u8,
        malformed_init_memory()[0] == 115u8,
        wellformed_memory()[0] == 115u8,
        wellformed_init_memory()[0] == 115u8,
        malformed_memory()[9] == 44u8,
        malformed_init_memory()[9] == 44u8,
        wellformed_memory()[9] == 95u8,
        wellformed_init_memory()[9] == 95u8,
        lacks_s(malformed_memory().skip(1)),
        lacks_s(malformed_init_memory().skip(1)),
        lacks_s(wellformed_memory().skip(1)),
        lacks_s(wellformed_init_memory().skip(1)),
{
    reveal_strlit("section \",_memory\"");
    reveal_strlit("section \"_memory\"");
    reveal_strlit("section \",_init_memory\"");
    reveal_strlit("section \"_init_memory\"");
}

/// A text that starts with a byte other than `s` starts no table entry.
proof fn lemma_no_entry_at_other_byte(s: Seq<u8>)
    requires
        s.len() > 0,
        s[0] != 115u8,
    ensures
        !starts_with(s, malformed_memory()),
        !starts_with(s, malformed_init_memory()),
{
    lemma_table_shape();
    if starts_with(s, malformed_memory()) {
        assert(s.subrange(0, 18)[0] == s[0]);
    }
    if starts_with(s, malformed_init_memory()) {
        assert(s.subrange(0, 23)[0] == s[0]);
    }
}

/// The patch passes over bytes that cannot start a table entry.
proof fn lemma_patched_skips(u: Seq<u8>, t: Seq<u8>)
    requires
        lacks_s(u),
    ensures
        patched(u + t) == u + patched(t),
    decreases u.len(),
{
    if u.len() == 0 {
        assert(u + t =~= t);
    } else {
        let ut = u + t;
        assert(ut[0] == u[0]);
        lemma_no_entry_at_other_byte(ut);
        assert(ut.skip(1) =~= u.skip(1) + t);
        lemma_patched_skips(u.skip(1), t);
        assert(patched(ut) == seq![ut[0]] + patched(ut.skip(1)));
        assert(seq![u[0]] + (u.skip(1) + patched(t)) =~= u + patched(t));
    }
}

/// A well-formed section name is left as it is.
proof fn lemma_patched_keeps_wellformed(w: Seq<u8>, t: Seq<u8>)
    requires
        w == wellformed_memory() || w == wellformed_init_memory(),
    ensures
        patched(w + t) == w + patched(t),
{
    lemma_table_shape();
    let wt = w + t;
    assert(wt[9] == w[9]);
    assert(wt[0] == w[0]);
    if starts_with(wt, malformed_memory()) {
        assert(wt.subrange(0, 18)[9] == wt[9]);
    }
    if starts_with(wt, malformed_init_memory()) {
        assert(wt.subrange(0, 23)[9] == wt[9]);
    }
    assert(wt.skip(1) =~= w.skip(1) + t);
    lemma_patched_skips(w.skip(1), t);
    assert(seq![w[0]] + (w.skip(1) + patched(t)) =~= w + patched(t));
}

/// The patch creates no new start of a text `q` without `s` in it.
proof fn lemma_patched_no_new_start(t: Seq<u8>, q: Seq<u8>)
    requires
        q.len() > 0,
        lacks_s(q),
        !starts_with(t, q),
    ensures
        !starts_with(patched(t), q),
    decreases t.len(),
{
    lemma_table_shape();
    if t.len() == 0 {
    } else if starts_with(t, malformed_memory()) {
        let r = patched(t);
        assert(r == wellformed_memory() + patched(t.skip(18)));
        assert(r[0] == 115u8);
        if starts_with(r, q) {
            assert(r.subrange(0, q.len() as int)[0] == r[0]);
        }
    } else if starts_with(t, malformed_init_memory()) {
        let r = patched(t);
        assert(r == wellformed_init_memory() + patched(t.skip(23)));
        assert(r[0] == 115u8);
        if starts_with(r, q) {
            assert(r.subrange(0, q.len() as int)[0] == r[0]);
        }
    } else {
        let r = patched(t);
        let rest = patched(t.skip(1));
        assert(r == seq![t[0]] + rest);
        if starts_with(r, q) {
            assert(r.subrange(0, q.len() as int)[0] == r[0]);
            assert(t[0] == q[0]);
            if q.len() == 1 {
                assert(t.subrange(0, 1) =~= q);
            } else {
                let q1 = q.skip(1);
                if starts_with(t.skip(1), q1) {
                    assert(t.subrange(0, q.len() as int) =~= seq![t[0]] + t.skip(1).subrange(
                        0,
                        q1.len() as int,
                    ));
                    assert(seq![q[0]] + q1 =~= q);
                }
                lemma_patched_no_new_start(t.skip(1), q1);
                assert(r.subrange(0, q.len() as int) =~= seq![t[0]] + rest.subrange(
                    0,
                    q1.len() as int,
                ));
                assert(rest.subrange(0, q1.len() as int) =~= q1);
            }
        }
    }
}

/// Where the text starts with no table entry, neither does its patched form.
proof fn lemma_patched_head(s: Seq<u8>)
    requires
        s.len() > 0,
        !starts_with(s, malformed_memory()),
        !starts_with(s, malformed_init_memory()),
    ensures
        patched(s) == seq![s[0]] + patched(s.skip(1)),
        !starts_with(patched(s), malformed_memory()),
        !starts_with(patched(s), malformed_init_memory()),
{
    lemma_table_shape();
    let u = patched(s.skip(1));
    let cu = seq![s[0]] + u;
    assert(patched(s) == cu);
    if s[0] == 115u8 {
        if starts_with(cu, malformed_memory()) {
            let q = malformed_memory().skip(1);
            if starts_with(s.skip(1), q) {
                assert(s.subrange(0, 18) =~= seq![s[0]] + s.skip(1).subrange(0, 17));
                assert(seq![malformed_memory()[0]] + q =~= malformed_memory());
            }
            lemma_patched_no_new_start(s.skip(1), q);
            assert(cu.subrange(0, 18) =~= seq![s[0]] + u.subrange(0, 17));
            assert(u.subrange(0, 17) =~= q);
        }
        if starts_with(cu, malformed_init_memory()) {
            let q = malformed_init_memory().skip(1);
            if starts_with(s.skip(1), q) {
                assert(s.subrange(0, 23) =~= seq![s[0]] + s.skip(1).subrange(0, 22));
                assert(seq![malformed_init_memory()[0]] + q =~= malformed_init_memory());
            }
            lemma_patched_no_new_start(s.skip(1), q);
            assert(cu.subrange(0, 23) =~= seq![s[0]] + u.subrange(0, 22));
            assert(u.subrange(0, 22) =~= q);
        }
    } else {
        assert(cu[0] == s[0]);
        lemma_no_entry_at_other_byte(cu);
    }
}

/// Applying the section-name patch a second time changes nothing.
pub proof fn lemma_patch_idempotent(s: Seq<u8>)
    ensures
        patched(patched(s)) == patched(s),
    decreases s.len(),
{
    lemma_table_shape();
    if s.len() == 0 {
    } else if starts_with(s, malformed_memory()) {
        lemma_patch_idempotent(s.skip(18));
        lemma_patched_keeps_wellformed(wellformed_memory(), patched(s.skip(18)));
    } else if starts_with(s, malformed_init_memory()) {
        lemma_patch_idempotent(s.skip(23));
        lemma_patched_keeps_wellformed(wellformed_init_memory(), patched(s.skip(23)));
    } else {
        lemma_patched_head(s);
        lemma_patch_idempotent(s.skip(1));
        let cu = patched(s);
        assert(cu.skip(1) =~= patched(s.skip(1)));
    }
}

/// A well-formed section name followed by a clean text is clean.
proof fn lemma_wellformed_then_free(w: Seq<u8>, u: Seq<u8>)
    requires
        w == wellformed_memory() || w == wellformed_init_memory(),
        free_of_malformed(u),
    ensures
        free_of_malformed(w + u),
{
    lemma_table_shape();
    let wu = w + u;
    assert forall|i: int| 0 <= i <= wu.len() implies !starts_with(#[trigger] wu.skip(i), malformed_memory())
        && !starts_with(wu.skip(i), malformed_init_memory()) by {
        if i >= w.len() {
            assert(wu.skip(i) =~= u.skip(i - w.len()));
        } else if i == 0 {
            assert(wu.skip(0) =~= wu);
            assert(wu[9] == w[9]);
            if starts_with(wu, malformed_memory()) {
                assert(wu.subrange(0, 18)[9] == wu[9]);
            }
            if starts_with(wu, malformed_init_memory()) {
                assert(wu.subrange(0, 23)[9] == wu[9]);
            }
        } else {
            assert(w.skip(1)[i - 1] == w[i]);
            assert(wu.skip(i)[0] == w[i]);
            lemma_no_entry_at_other_byte(wu.skip(i));
        }
    }
}

/// The patched text holds no malformed section name of the fix table.
pub proof fn lemma_patched_free_of_malformed(s: Seq<u8>)
    ensures
        free_of_malformed(patched(s)),
    decreases s.len(),
{
    lemma_table_shape();
    if s.len() == 0 {
        assert forall|i: int| 0 <= i <= s.len() implies !starts_with(#[trigger] s.skip(i), malformed_memory())
            && !starts_with(s.skip(i), malformed_init_memory()) by {
            assert(s.skip(i).len() == 0);
        }
    } else if starts_with(s, malformed_memory()) {
        lemma_patched_free_of_malformed(s.skip(18));
        lemma_wellformed_then_free(wellformed_memory(), patched(s.skip(18)));
    } else if starts_with(s, malformed_init_memory()) {
        lemma_patched_free_of_malformed(s.skip(23));
        lemma_wellformed_then_free(wellformed_init_memory(), patched(s.skip(23)));
    } else {
        lemma_patched_head(s);
        lemma_patched_free_of_malformed(s.skip(1));
        let r = patched(s);
        let u = patched(s.skip(1));
        assert forall|i: int| 0 <= i <= r.len() implies !starts_with(#[trigger] r.skip(i), malformed_memory())
            && !starts_with(r.skip(i), malformed_init_memory()) by {
            if i == 0 {
                assert(r.skip(0) =~= r);
            } else {
                assert(r.skip(i) =~= u.skip(i - 1));
            }
        }
    }
}

/// Appends the bytes of `b` to `out`.
fn append_bytes(out: &mut Vec<u8>, b: &Vec<u8>)
    ensures
        final(out)@ == old(out)@ + b@,
{
    let mut i: usize = 0;
    while i < b.len()
        invariant
            i <= b.len(),
            out@ == old(out)@ + b@.subrange(0, i as int),
        decreases b.len() - i,
    {
        out.push(b[i]);
        i = i + 1;
        assert(b@.subrange(0, i as int) =~= b@.subrange(0, i - 1).push(b@[i - 1]));
    }
    assert(b@.subrange(0, b.len() as int) =~= b@);
}

/// Decimal digits of `n` as ASCII bytes.
pub fn render_decimal(n: u64) -> (r: Vec<u8>)
    ensures
        r@ == decimal(n as nat),
    decreases n,
{
    if n < 10 {
        vec![(48 + n) as u8]
    } else {
        let mut v = render_decimal(n / 10);
        v.push((48 + n % 10) as u8);
        v
    }
}

fn version_line_of(name: &str, value: u64) -> (r: Vec<u8>)
    requires
        name.is_ascii(),
    ensures
        r@ == version_line(ascii_bytes(name@), value as nat),
{
    proof {
        reveal_strlit("@");
        reveal_strlit(" = global i64 ");
        reveal_strlit(", section \"_version\", align 1\n");
        vstd::string::is_ascii_spec_bytes(name);
        vstd::string::is_ascii_spec_bytes("@");
        vstd::string::is_ascii_spec_bytes(" = global i64 ");
        vstd::string::is_ascii_spec_bytes(", section \"_version\", align 1\n");
    }
    let mut r = "@".as_bytes_vec();
    append_bytes(&mut r, &name.as_bytes_vec());
    append_bytes(&mut r, &" = global i64 ".as_bytes_vec());
    append_bytes(&mut r, &render_decimal(value));
    append_bytes(&mut r, &", section \"_version\", align 1\n".as_bytes_vec());
    r
}

/// The version record block, two declaration lines.
pub fn version_record() -> (r: Vec<u8>)
    ensures
        r@ == version_record_bytes(),
{
    proof {
        reveal_strlit("_OBJECT_VERSION");
        reveal_strlit("_EXPECTED_RUNTIME_VERSION");
    }
    let mut r = version_line_of("_OBJECT_VERSION", OBJECT_FILE_VERSION);
    append_bytes(&mut r, &version_line_of("_EXPECTED_RUNTIME_VERSION", EXPECTED_RUNTIME_VERSION));
    r
}

/// Appends the version record to the IR text: every byte already there keeps
/// its offset, and the record stands once, at the end.
pub fn add_version_info(content: &mut Vec<u8>)
    ensures
        final(content)@ == old(content)@ + version_record_bytes(),
        final(content)@.subrange(0, old(content)@.len() as int) == old(content)@,
        final(content)@.skip(old(content)@.len() as int) == version_record_bytes(),
{
    let record = version_record();
    append_bytes(content, &record);
    assert(final(content)@.subrange(0, old(content)@.len() as int) =~= old(content)@);
    assert(final(content)@.skip(old(content)@.len() as int) =~= version_record_bytes());
}

/// Whether `p` occurs in `s` at offset `at`.
pub(crate) fn occurs_at(s: &Vec<u8>, at: usize, p: &Vec<u8>) -> (r: bool)
    requires
        at <= s.len(),
    ensures
        r == starts_with(s@.skip(at as int), p@),
{
    if p.len() > s.len() - at {
        return false;
    }
    let mut j: usize = 0;
    while j < p.len()
        invariant
            j <= p.len(),
            p.len() <= s.len() - at,
            forall|k: int| 0 <= k < j ==> s@[at + k] == p@[k],
        decreases p.len() - j,
    {
        if s[at + j] != p[j] {
            assert(s@.skip(at as int).subrange(0, p.len() as int)[j as int] == s@[at + j]);
            return false;
        }
        j = j + 1;
    }
    assert(s@.skip(at as int).subrange(0, p.len() as int) =~= p@);
    true
}

/// Rewrites the malformed section names of the fix table to their
/// well-formed spelling; every other byte is kept.
pub fn fix_version_content(content: &Vec<u8>) -> (r: Vec<u8>)
    ensures
        r@ == patched(content@),
        free_of_malformed(r@),
{
    proof {
        lemma_patched_free_of_malformed(content@);
    }
    proof {
        reveal_strlit("section \",_memory\"");
        reveal_strlit("section \"_memory\"");
        reveal_strlit("section \",_init_memory\"");
        reveal_strlit("section \"_init_memory\"");
        vstd::string::is_ascii_spec_bytes("section \",_memory\"");
        vstd::string::is_ascii_spec_bytes("section \"_memory\"");
        vstd::string::is_ascii_spec_bytes("section \",_init_memory\"");
        vstd::string::is_ascii_spec_bytes("section \"_init_memory\"");
    }
    let bad_memory = "section \",_memory\"".as_bytes_vec();
    let good_memory = "section \"_memory\"".as_bytes_vec();
    let bad_init = "section \",_init_memory\"".as_bytes_vec();
    let good_init = "section \"_init_memory\"".as_bytes_vec();
    let mut out: Vec<u8> = Vec::new();
    let mut i: usize = 0;
    proof {
        lemma_table_shape();
        assert(content@.skip(0) =~= content@);
        assert(out@ + patched(content@) =~= patched(content@));
    }
    while i < content.len()
        invariant
            i <= content.len(),
            bad_memory@ == malformed_memory(),
            bad_memory.len() == 18,
            bad_init.len() == 23,
            good_memory@ == wellformed_memory(),
            bad_init@ == malformed_init_memory(),
            good_init@ == wellformed_init_memory(),
            out@ + patched(content@.skip(i as int)) == patched(content@),
        decreases content.len() - i,
    {
        let ghost rest = content@.skip(i as int);
        if occurs_at(content, i, &bad_memory) {
            assert(rest.skip(bad_memory.len() as int) =~= content@.skip(i + bad_memory.len()));
            append_bytes(&mut out, &good_memory);
            i = i + bad_memory.len();
        } else if occurs_at(content, i, &bad_init) {
            assert(rest.skip(bad_init.len() as int) =~= content@.skip(i + bad_init.len()));
            append_bytes(&mut out, &good_init);
            i = i + bad_init.len();
        } else {
            assert(rest.skip(1) =~= content@.skip(i + 1));
            assert(rest[0] == content@[i as int]);
            out.push(content[i]);
            i = i + 1;
        }
    }
    assert(content@.skip(i as int) =~= Seq::<u8>::empty());
    assert(out@ + Seq::<u8>::empty() =~= out@);
    out
}

/// The versioned IR derived from a raw IR text: the version record
/// appended, then the section-name fixes applied.
pub fn versioned_ir(raw: &Vec<u8>) -> (r: Vec<u8>)
    ensures
        r@ == patched(raw@ + version_record_bytes()),
        free_of_malformed(r@),
{
    let mut content = raw.clone();
    add_version_info(&mut content);
    fix_version_content(&content)
}

} // verus!
