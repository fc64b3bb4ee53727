//! The gateway-section patcher for the agent's configuration file.
//!
//! The configuration is plain text.  The patcher scans it line by line,
//! finds the `[gateway]` section, rewrites a `port =` line whose value is
//! not the expected gateway port and a `require_pairing =` line that still
//! says `true`, and leaves every other byte alone.  The scan stops at the
//! next section header.

use vstd::prelude::*;

use crate::bytes::{
    bytes_eq, copy_bytes, is_ws, lemma_trim_of_trimmed, starts_with, starts_with_spec, subvec,
    trim, trim_spec,
};

verus! {

/// The newline byte that separates configuration lines.
pub const NL: u8 = 10;

/// `"[gateway]"`, the section header the patcher looks for.
pub open spec fn gateway_header() -> Seq<u8> {
    seq![91, 103, 97, 116, 101, 119, 97, 121, 93]
}

/// `"port ="`, the start of a patched port line.
pub open spec fn port_prefix() -> Seq<u8> {
    seq![112, 111, 114, 116, 32, 61]
}

/// `"18789"`, the gateway port the desktop client connects to.
pub open spec fn port_value() -> Seq<u8> {
    seq![49, 56, 55, 56, 57]
}

/// `"port = 18789"`, the rewritten port line.
pub open spec fn port_line() -> Seq<u8> {
    port_prefix() + seq![32] + port_value()
}

/// `"require_pairing ="`, the start of a patched pairing line.
pub open spec fn pairing_prefix() -> Seq<u8> {
    seq![
        114,
        101,
        113,
        117,
        105,
        114,
        101,
        95,
        112,
        97,
        105,
        114,
        105,
        110,
        103,
        32,
        61,
    ]
}

/// `"true"`.
pub open spec fn true_value() -> Seq<u8> {
    seq![116, 114, 117, 101]
}

/// `"require_pairing = false"`, the rewritten pairing line.
pub open spec fn pairing_line() -> Seq<u8> {
    pairing_prefix() + seq![32, 102, 97, 108, 115, 101]
}

pub fn gateway_header_vec() -> (v: Vec<u8>)
    ensures
        v@ == gateway_header(),
{
    let mut v: Vec<u8> = Vec::new();
    v.push(91);
    v.push(103);
    v.push(97);
    v.push(116);
    v.push(101);
    v.push(119);
    v.push(97);
    v.push(121);
    v.push(93);
    proof {
        assert(v@ =~= gateway_header());
    }
    v
}

pub fn port_prefix_vec() -> (v: Vec<u8>)
    ensures
        v@ == port_prefix(),
{
    let mut v: Vec<u8> = Vec::new();
    v.push(112);
    v.push(111);
    v.push(114);
    v.push(116);
    v.push(32);
    v.push(61);
    proof {
        assert(v@ =~= port_prefix());
    }
    v
}

pub fn port_value_vec() -> (v: Vec<u8>)
    ensures
        v@ == port_value(),
{
    let mut v: Vec<u8> = Vec::new();
    v.push(49);
    v.push(56);
    v.push(55);
    v.push(56);
    v.push(57);
    proof {
        assert(v@ =~= port_value());
    }
    v
}

pub fn port_line_vec() -> (v: Vec<u8>)
    ensures
        v@ == port_line(),
{
    let mut v = port_prefix_vec();
    v.push(32);
    let val = port_value_vec();
    append_bytes(&mut v, &val);
    proof {
        assert(v@ =~= port_line());
    }
    v
}

pub fn pairing_prefix_vec() -> (v: Vec<u8>)
    ensures
        v@ == pairing_prefix(),
{
    let mut v: Vec<u8> = Vec::new();
    v.push(114);
    v.push(101);
    v.push(113);
    v.push(117);
    v.push(105);
    v.push(114);
    v.push(101);
    v.push(95);
    v.push(112);
    v.push(97);
    v.push(105);
    v.push(114);
    v.push(105);
    v.push(110);
    v.push(103);
    v.push(32);
    v.push(61);
    proof {
        assert(v@ =~= pairing_prefix());
    }
    v
}

pub fn true_value_vec() -> (v: Vec<u8>)
    ensures
        v@ == true_value(),
{
    let mut v: Vec<u8> = Vec::new();
    v.push(116);
    v.push(114);
    v.push(117);
    v.push(101);
    proof {
        assert(v@ =~= true_value());
    }
    v
}

pub fn pairing_line_vec() -> (v: Vec<u8>)
    ensures
        v@ == pairing_line(),
{
    let mut v = pairing_prefix_vec();
    v.push(32);
    v.push(102);
    v.push(97);
    v.push(108);
    v.push(115);
    v.push(101);
    proof {
        assert(v@ =~= pairing_line());
    }
    v
}

/// The views of a sequence of byte vectors.
pub open spec fn views(vs: Seq<Vec<u8>>) -> Seq<Seq<u8>> {
    vs.map_values(|v: Vec<u8>| v@)
}

pub fn append_bytes(dst: &mut Vec<u8>, src: &Vec<u8>)
    ensures
        final (dst)@ == old(dst)@ + src@,
{
    let mut i: usize = 0;
    while i < src.len()
        invariant
            i <= src@.len(),
            dst@ == old(dst)@ + src@.subrange(0, i as int),
        decreases src@.len() - i,
    {
        dst.push(src[i]);
        assert(dst@ =~= old(dst)@ + src@.subrange(0, i + 1 as int));
        i += 1;
    }
    assert(dst@ =~= old(dst)@ + src@);
}

/// `s` split at every newline byte; always at least one piece, and no piece
/// holds a newline.
pub open spec fn spec_split(s: Seq<u8>) -> Seq<Seq<u8>>
    decreases s.len(),
{
    if s.len() == 0 {
        seq![Seq::<u8>::empty()]
    } else if s[0] == NL {
        seq![Seq::<u8>::empty()] + spec_split(s.skip(1))
    } else {
        let r = spec_split(s.skip(1));
        seq![seq![s[0]] + r[0]] + r.skip(1)
    }
}

/// The lines of `s`: split at newlines, with nothing after a final newline.
pub open spec fn spec_lines_of(s: Seq<u8>) -> Seq<Seq<u8>> {
    if s.len() == 0 {
        Seq::<Seq<u8>>::empty()
    } else if s.last() == NL {
        spec_split(s.take(s.len() - 1))
    } else {
        spec_split(s)
    }
}

/// The lines joined back with a newline between each pair.
pub open spec fn spec_join(ls: Seq<Seq<u8>>) -> Seq<u8>
    decreases ls.len(),
{
    if ls.len() == 0 {
        Seq::<u8>::empty()
    } else if ls.len() == 1 {
        ls[0]
    } else {
        ls[0] + seq![NL] + spec_join(ls.skip(1))
    }
}

pub open spec fn no_nl(l: Seq<u8>) -> bool {
    forall|i: int| 0 <= i < l.len() ==> l[i] != NL
}

pub proof fn lemma_split_len(s: Seq<u8>)
    ensures
        spec_split(s).len() >= 1,
    decreases s.len(),
{
    if s.len() > 0 {
        lemma_split_len(s.skip(1));
    }
}

pub proof fn lemma_split_no_nl(s: Seq<u8>)
    ensures
        forall|i: int| 0 <= i < spec_split(s).len() ==> no_nl(#[trigger] spec_split(s)[i]),
    decreases s.len(),
{
    if s.len() == 0 {
        assert(no_nl(spec_split(s)[0]));
    } else if s[0] == NL {
        lemma_split_no_nl(s.skip(1));
        let r = spec_split(s.skip(1));
        assert forall|i: int| 0 <= i < spec_split(s).len() implies no_nl(
            #[trigger] spec_split(s)[i],
        ) by {
            if i == 0 {
                assert(no_nl(Seq::<u8>::empty()));
            } else {
                assert(spec_split(s)[i] == r[i - 1]);
            }
        }
    } else {
        lemma_split_no_nl(s.skip(1));
        lemma_split_len(s.skip(1));
        let r = spec_split(s.skip(1));
        assert forall|i: int| 0 <= i < spec_split(s).len() implies no_nl(
            #[trigger] spec_split(s)[i],
        ) by {
            if i == 0 {
                assert(no_nl(r[0]));
                assert forall|j: int| 0 <= j < spec_split(s)[0].len() implies spec_split(s)[0][j]
                    != NL by {
                    if j == 0 {
                        assert(spec_split(s)[0][0] == s[0]);
                    } else {
                        assert(spec_split(s)[0][j] == r[0][j - 1]);
                    }
                }
            } else {
                assert(spec_split(s)[i] == r[i]);
            }
        }
    }
}

/// Splitting `p + rest` where `p` has no newline prepends `p` to the first
/// piece of splitting `rest`.
pub proof fn lemma_split_prepend(p: Seq<u8>, rest: Seq<u8>)
    requires
        no_nl(p),
    ensures
        spec_split(p + rest) == seq![p + spec_split(rest)[0]] + spec_split(rest).skip(1),
    decreases p.len(),
{
    lemma_split_len(rest);
    if p.len() == 0 {
        assert(p + rest =~= rest);
        assert(p + spec_split(rest)[0] =~= spec_split(rest)[0]);
        assert(seq![spec_split(rest)[0]] + spec_split(rest).skip(1) =~= spec_split(rest));
    } else {
        let s = p + rest;
        assert(s[0] == p[0]);
        assert(s[0] != NL);
        assert(s.skip(1) =~= p.skip(1) + rest);
        lemma_split_prepend(p.skip(1), rest);
        let r = spec_split(p.skip(1) + rest);
        assert(r == seq![p.skip(1) + spec_split(rest)[0]] + spec_split(rest).skip(1));
        assert(r[0] == p.skip(1) + spec_split(rest)[0]);
        assert(seq![s[0]] + r[0] =~= p + spec_split(rest)[0]);
        assert(r.skip(1) =~= spec_split(rest).skip(1));
        assert(spec_split(s) =~= seq![p + spec_split(rest)[0]] + spec_split(rest).skip(1));
    }
}

/// Joining non-empty newline-free lines and splitting again is the identity.
pub proof fn lemma_split_of_join(ls: Seq<Seq<u8>>)
    requires
        ls.len() >= 1,
        forall|i: int| 0 <= i < ls.len() ==> no_nl(#[trigger] ls[i]),
    ensures
        spec_split(spec_join(ls)) == ls,
    decreases ls.len(),
{
    if ls.len() == 1 {
        lemma_split_prepend(ls[0], Seq::<u8>::empty());
        assert(ls[0] + Seq::<u8>::empty() =~= ls[0]);
        assert(spec_split(Seq::<u8>::empty()) == seq![Seq::<u8>::empty()]);
        assert(ls[0] + spec_split(Seq::<u8>::empty())[0] =~= ls[0]);
        assert(spec_split(spec_join(ls)) =~= ls);
    } else {
        let rest = ls.skip(1);
        assert(forall|i: int| 0 <= i < rest.len() ==> no_nl(#[trigger] rest[i]));
        lemma_split_of_join(rest);
        let tail = seq![NL] + spec_join(rest);
        lemma_split_prepend(ls[0], tail);
        assert(spec_join(ls) =~= ls[0] + tail);
        assert(tail[0] == NL);
        assert(tail.skip(1) =~= spec_join(rest));
        assert(spec_split(tail) == seq![Seq::<u8>::empty()] + spec_split(spec_join(rest)));
        assert(spec_split(tail)[0] =~= Seq::<u8>::empty());
        assert(ls[0] + spec_split(tail)[0] =~= ls[0]);
        assert(spec_split(tail).skip(1) =~= spec_split(spec_join(rest)));
        assert(spec_split(spec_join(ls)) =~= seq![ls[0]] + rest);
        assert(seq![ls[0]] + rest =~= ls);
    }
}

/// The lines of `join(ls) + "\n"` are `ls` again.
pub proof fn lemma_lines_of_join(ls: Seq<Seq<u8>>)
    requires
        ls.len() >= 1,
        forall|i: int| 0 <= i < ls.len() ==> no_nl(#[trigger] ls[i]),
    ensures
        spec_lines_of(spec_join(ls) + seq![NL]) == ls,
{
    let s = spec_join(ls) + seq![NL];
    assert(s.len() > 0);
    assert(s.last() == NL);
    assert(s.take(s.len() - 1) =~= spec_join(ls));
    lemma_split_of_join(ls);
}

/// Appending one more line to a join appends a newline and the line.
pub proof fn lemma_join_push(ls: Seq<Seq<u8>>, x: Seq<u8>)
    ensures
        ls.len() == 0 ==> spec_join(ls.push(x)) == x,
        ls.len() > 0 ==> spec_join(ls.push(x)) == spec_join(ls) + seq![NL] + x,
    decreases ls.len(),
{
    if ls.len() == 0 {
        assert(spec_join(ls.push(x)) == ls.push(x)[0]);
        assert(ls.push(x)[0] == x);
    } else if ls.len() == 1 {
        assert(ls.push(x).len() == 2);
        assert(ls.push(x)[0] == ls[0]);
        assert(ls.push(x).skip(1) =~= seq![x]);
        assert(spec_join(seq![x]) == x);
        assert(spec_join(ls) == ls[0]);
    } else {
        lemma_join_push(ls.skip(1), x);
        assert(ls.push(x).skip(1) =~= ls.skip(1).push(x));
        assert(ls.push(x)[0] == ls[0]);
        assert(spec_join(ls.push(x)) == ls[0] + seq![NL] + spec_join(ls.skip(1).push(x)));
        assert(ls[0] + seq![NL] + (spec_join(ls.skip(1)) + seq![NL] + x) =~= (ls[0] + seq![NL]
            + spec_join(ls.skip(1))) + seq![NL] + x);
    }
}

/// The lines of `content`, each line a fresh vector.
pub fn split_lines(content: &Vec<u8>) -> (r: Vec<Vec<u8>>)
    ensures
        views(r@) == spec_lines_of(content@),
{
    let mut result: Vec<Vec<u8>> = Vec::new();
    if content.len() == 0 {
        assert(views(result@) =~= spec_lines_of(content@));
        return result;
    }
    let eff: usize = if content[content.len() - 1] == NL {
        content.len() - 1
    } else {
        content.len()
    };
    let ghost s = content@.take(eff as int);
    proof {
        if content@.last() == NL {
            assert(s =~= content@.take(content@.len() - 1));
        } else {
            assert(s =~= content@);
        }
        assert(spec_lines_of(content@) == spec_split(s));
    }
    let mut cur: Vec<u8> = Vec::new();
    let mut i: usize = 0;
    proof {
        assert(cur@ + s.skip(0) =~= s);
    }
    while i < eff
        invariant
            i <= eff <= content@.len(),
            s == content@.take(eff as int),
            no_nl(cur@),
            spec_split(s) == views(result@) + spec_split(cur@ + s.skip(i as int)),
        decreases eff - i,
    {
        let b = content[i];
        assert(content@[i as int] == s[i as int]);
        if b == NL {
            proof {
                let rest = s.skip(i as int);
                lemma_split_prepend(cur@, rest);
                assert(rest[0] == NL);
                assert(rest.skip(1) =~= s.skip(i + 1));
                assert(spec_split(rest) == seq![Seq::<u8>::empty()] + spec_split(s.skip(i + 1)));
                assert(spec_split(rest)[0] =~= Seq::<u8>::empty());
                assert(cur@ + spec_split(rest)[0] =~= cur@);
                assert(spec_split(rest).skip(1) =~= spec_split(s.skip(i + 1)));
                assert(spec_split(cur@ + rest) == seq![cur@] + spec_split(s.skip(i + 1)));
            }
            let ghost old_result = result@;
            let ghost old_cur = cur@;
            result.push(cur);
            cur = Vec::new();
            proof {
                assert(views(result@) =~= views(old_result).push(old_cur));
                assert(views(old_result) + (seq![old_cur] + spec_split(s.skip(i + 1))) =~= views(
                    result@,
                ) + spec_split(s.skip(i + 1)));
                assert(cur@ + s.skip(i + 1) =~= s.skip(i + 1));
            }
        } else {
            let ghost old_cur = cur@;
            cur.push(b);
            proof {
                assert(cur@ + s.skip(i + 1) =~= old_cur + s.skip(i as int));
            }
        }
        i += 1;
    }
    proof {
        let rest = s.skip(eff as int);
        assert(rest =~= Seq::<u8>::empty());
        lemma_split_prepend(cur@, rest);
        assert(cur@ + rest =~= cur@);
        assert(spec_split(rest) == seq![Seq::<u8>::empty()]);
        assert(cur@ + spec_split(rest)[0] =~= cur@);
        assert(spec_split(cur@) =~= seq![cur@]);
    }
    let ghost old_result = result@;
    let ghost old_cur = cur@;
    result.push(cur);
    proof {
        assert(views(result@) =~= views(old_result).push(old_cur));
        assert(views(old_result) + seq![old_cur] =~= views(result@));
    }
    result
}

/// The lines joined with newlines, without a trailing newline.
pub fn join_lines(ls: &Vec<Vec<u8>>) -> (r: Vec<u8>)
    ensures
        r@ == spec_join(views(ls@)),
{
    let mut r: Vec<u8> = Vec::new();
    let mut i: usize = 0;
    while i < ls.len()
        invariant
            i <= ls@.len(),
            r@ == spec_join(views(ls@).take(i as int)),
        decreases ls@.len() - i,
    {
        if i > 0 {
            r.push(NL);
        }
        append_bytes(&mut r, &ls[i]);
        proof {
            let pre = views(ls@).take(i as int);
            lemma_join_push(pre, ls@[i as int]@);
            assert(views(ls@).take(i + 1) =~= pre.push(ls@[i as int]@));
        }
        i += 1;
    }
    proof {
        assert(views(ls@).take(ls@.len() as int) =~= views(ls@));
    }
    r
}

} // verus!

verus! {

/// The value a key-value line carries: what stands after the prefix, with
/// surrounding whitespace removed.
pub open spec fn value_after(t: Seq<u8>, prefix: Seq<u8>) -> Seq<u8> {
    trim_spec(t.skip(prefix.len() as int))
}

/// One line of the gateway section, patched: a `port =` line whose value is
/// not the expected port becomes `port = 18789`, and a
/// `require_pairing = true` line becomes `require_pairing = false`.
pub open spec fn spec_patch_line(l: Seq<u8>) -> Seq<u8> {
    let t = trim_spec(l);
    if starts_with_spec(t, port_prefix()) && value_after(t, port_prefix()) != port_value() {
        port_line()
    } else if starts_with_spec(t, pairing_prefix()) && value_after(t, pairing_prefix())
        == true_value() {
        pairing_line()
    } else {
        l
    }
}

/// A line that opens some section, such as `[memory]`.
pub open spec fn is_section_start(l: Seq<u8>) -> bool {
    trim_spec(l).len() > 0 && trim_spec(l)[0] == 91
}

/// The line scan: lines before the `[gateway]` header pass through, lines of
/// the gateway section are patched, and the scan stops at the next section
/// header, leaving the remainder untouched.
pub open spec fn spec_patch_scan(ls: Seq<Seq<u8>>, in_gateway: bool) -> Seq<Seq<u8>>
    decreases ls.len(),
{
    if ls.len() == 0 {
        ls
    } else if trim_spec(ls[0]) == gateway_header() {
        seq![ls[0]] + spec_patch_scan(ls.skip(1), true)
    } else if in_gateway && is_section_start(ls[0]) {
        ls
    } else if in_gateway {
        seq![spec_patch_line(ls[0])] + spec_patch_scan(ls.skip(1), true)
    } else {
        seq![ls[0]] + spec_patch_scan(ls.skip(1), false)
    }
}

pub open spec fn spec_patch_lines(ls: Seq<Seq<u8>>) -> Seq<Seq<u8>> {
    spec_patch_scan(ls, false)
}

/// The whole patch: the content is split into lines and scanned; if nothing
/// had to change the content is returned byte for byte, otherwise the patched
/// lines are joined with a trailing newline.
pub open spec fn spec_patch(content: Seq<u8>) -> Seq<u8> {
    let ls = spec_lines_of(content);
    let ps = spec_patch_lines(ls);
    if ps == ls {
        content
    } else {
        spec_join(ps) + seq![NL]
    }
}

pub fn patch_line(l: &Vec<u8>) -> (r: Vec<u8>)
    ensures
        r@ == spec_patch_line(l@),
{
    let t = trim(l);
    let pp = port_prefix_vec();
    if starts_with(&t, &pp) {
        let value = trim(&subvec(&t, pp.len(), t.len()));
        let pv = port_value_vec();
        if !bytes_eq(&value, &pv) {
            return port_line_vec();
        }
        return copy_bytes(l);
    }
    let rp = pairing_prefix_vec();
    if starts_with(&t, &rp) {
        let value = trim(&subvec(&t, rp.len(), t.len()));
        let tv = true_value_vec();
        if bytes_eq(&value, &tv) {
            return pairing_line_vec();
        }
    }
    copy_bytes(l)
}

pub fn patch_lines(ls: &Vec<Vec<u8>>) -> (r: Vec<Vec<u8>>)
    ensures
        views(r@) == spec_patch_lines(views(ls@)),
{
    let ghost full = views(ls@);
    let mut out: Vec<Vec<u8>> = Vec::new();
    let mut in_gateway = false;
    let mut done = false;
    let mut i: usize = 0;
    proof {
        assert(full.skip(0) =~= full);
        assert(views(out@) + spec_patch_scan(full, false) =~= spec_patch_scan(full, false));
    }
    while i < ls.len()
        invariant
            i <= ls@.len(),
            full == views(ls@),
            !done ==> spec_patch_scan(full, false) == views(out@) + spec_patch_scan(
                full.skip(i as int),
                in_gateway,
            ),
            done ==> spec_patch_scan(full, false) == views(out@) + full.skip(i as int),
        decreases ls@.len() - i,
    {
        let ghost rest = full.skip(i as int);
        proof {
            assert(rest[0] == full[i as int]);
            assert(full[i as int] == ls@[i as int]@);
            assert(rest.skip(1) =~= full.skip(i + 1));
        }
        let ghost old_out = out@;
        if done {
            out.push(copy_bytes(&ls[i]));
            proof {
                assert(views(out@) =~= views(old_out).push(rest[0]));
                assert(views(old_out) + rest =~= views(out@) + full.skip(i + 1));
            }
        } else {
            let t = trim(&ls[i]);
            let hd = gateway_header_vec();
            if bytes_eq(&t, &hd) {
                out.push(copy_bytes(&ls[i]));
                in_gateway = true;
                proof {
                    assert(spec_patch_scan(rest, !done && in_gateway) == seq![rest[0]]
                        + spec_patch_scan(rest.skip(1), true));
                    assert(views(out@) =~= views(old_out).push(rest[0]));
                    assert(views(old_out) + (seq![rest[0]] + spec_patch_scan(
                        full.skip(i + 1),
                        true,
                    )) =~= views(out@) + spec_patch_scan(full.skip(i + 1), true));
                }
            } else if in_gateway && t.len() > 0 && t[0] == 91 {
                proof {
                    assert(is_section_start(rest[0]));
                    assert(spec_patch_scan(rest, true) == rest);
                }
                out.push(copy_bytes(&ls[i]));
                done = true;
                proof {
                    assert(views(out@) =~= views(old_out).push(rest[0]));
                    assert(views(old_out) + rest =~= views(out@) + full.skip(i + 1));
                }
            } else if in_gateway {
                proof {
                    if t@.len() > 0 {
                        assert(!is_section_start(rest[0]));
                    }
                    assert(spec_patch_scan(rest, true) == seq![spec_patch_line(rest[0])]
                        + spec_patch_scan(rest.skip(1), true));
                }
                out.push(patch_line(&ls[i]));
                proof {
                    assert(views(out@) =~= views(old_out).push(spec_patch_line(rest[0])));
                    assert(views(old_out) + (seq![spec_patch_line(rest[0])] + spec_patch_scan(
                        full.skip(i + 1),
                        true,
                    )) =~= views(out@) + spec_patch_scan(full.skip(i + 1), true));
                }
            } else {
                proof {
                    assert(spec_patch_scan(rest, false) == seq![rest[0]] + spec_patch_scan(
                        rest.skip(1),
                        false,
                    ));
                }
                out.push(copy_bytes(&ls[i]));
                proof {
                    assert(views(out@) =~= views(old_out).push(rest[0]));
                    assert(views(old_out) + (seq![rest[0]] + spec_patch_scan(
                        full.skip(i + 1),
                        false,
                    )) =~= views(out@) + spec_patch_scan(full.skip(i + 1), false));
                }
            }
        }
        i += 1;
    }
    proof {
        assert(full.skip(full.len() as int) =~= Seq::<Seq<u8>>::empty());
        assert(spec_patch_scan(Seq::<Seq<u8>>::empty(), in_gateway) =~= Seq::<Seq<u8>>::empty());
        assert(views(out@) + Seq::<Seq<u8>>::empty() =~= views(out@));
    }
    out
}

pub fn lines_eq(a: &Vec<Vec<u8>>, b: &Vec<Vec<u8>>) -> (r: bool)
    ensures
        r == (views(a@) == views(b@)),
{
    if a.len() != b.len() {
        assert(views(a@).len() != views(b@).len());
        return false;
    }
    let mut i: usize = 0;
    while i < a.len()
        invariant
            i <= a@.len(),
            a@.len() == b@.len(),
            forall|j: int| 0 <= j < i ==> views(a@)[j] == views(b@)[j],
        decreases a@.len() - i,
    {
        if !bytes_eq(&a[i], &b[i]) {
            assert(views(a@)[i as int] != views(b@)[i as int]);
            return false;
        }
        assert(views(a@)[i as int] == views(b@)[i as int]);
        i += 1;
    }
    assert(views(a@) =~= views(b@));
    true
}

/// The patched configuration content, byte for byte equal to the input when
/// nothing in the gateway section had to change.
pub fn patch_gateway_content(content: &Vec<u8>) -> (r: Vec<u8>)
    ensures
        r@ == spec_patch(content@),
{
    let ls = split_lines(content);
    let ps = patch_lines(&ls);
    if lines_eq(&ps, &ls) {
        copy_bytes(content)
    } else {
        let mut j = join_lines(&ps);
        j.push(NL);
        proof {
            assert(j@ =~= spec_join(spec_patch_lines(spec_lines_of(content@))) + seq![NL]);
        }
        j
    }
}

/// The file-level patch: `content` is the configuration file's bytes, or
/// `None` when the file does not exist.  The result is the write to perform:
/// `None` when the file is absent or already correct, otherwise the new bytes.
pub fn patch_gateway_config(content: Option<Vec<u8>>) -> (r: Option<Vec<u8>>)
    ensures
        match content {
            None => r is None,
            Some(c) => if spec_patch(c@) == c@ {
                r is None
            } else {
                r matches Some(p) && p@ == spec_patch(c@)
            },
        },
{
    match content {
        None => None,
        Some(c) => {
            let p = patch_gateway_content(&c);
            if bytes_eq(&p, &c) {
                None
            } else {
                Some(p)
            }
        },
    }
}

} // verus!

verus! {

/// Facts about the two rewritten lines: each is already trimmed, neither is
/// a section header, and each is a fixed point of the line patch.
proof fn lemma_port_line_trimmed()
    ensures
        trim_spec(port_line()) == port_line(),
{
    assert(port_line().len() == 12);
    assert(port_line()[0] == 112);
    assert(port_line()[11] == 57);
    assert(port_line().last() == 57);
    lemma_trim_of_trimmed(port_line());
}

proof fn lemma_port_line_has_value()
    ensures
        starts_with_spec(port_line(), port_prefix()),
        value_after(port_line(), port_prefix()) == port_value(),
{
    assert(port_line().subrange(0, port_prefix().len() as int) =~= port_prefix());
    let rest = port_line().skip(port_prefix().len() as int);
    assert(rest =~= seq![32u8] + port_value());
    assert(is_ws(rest[0]));
    assert(rest.skip(1) =~= port_value());
    assert(port_value()[0] == 49);
    assert(port_value().last() == 57);
    lemma_trim_of_trimmed(port_value());
}

proof fn lemma_port_line_not_pairing()
    ensures
        !starts_with_spec(port_line(), pairing_prefix()),
{
    assert(port_line().len() == 12);
    assert(pairing_prefix().len() == 17);
}

proof fn lemma_port_line_shape()
    ensures
        port_line() != gateway_header(),
        port_line().len() > 0,
        port_line()[0] != 91,
        no_nl(port_line()),
{
    assert(port_line().len() == 12);
    assert(gateway_header().len() == 9);
    assert(port_line()[0] == 112);
    assert forall|i: int| 0 <= i < port_line().len() implies port_line()[i] != NL by {}
}

/// Facts about the rewritten port line: trimmed, no header, and a fixed
/// point of the line patch.
pub proof fn lemma_port_line_facts()
    ensures
        trim_spec(port_line()) == port_line(),
        spec_patch_line(port_line()) == port_line(),
        trim_spec(port_line()) != gateway_header(),
        !is_section_start(port_line()),
        no_nl(port_line()),
{
    lemma_port_line_trimmed();
    lemma_port_line_has_value();
    lemma_port_line_not_pairing();
    lemma_port_line_shape();
}

proof fn lemma_pairing_line_trimmed()
    ensures
        trim_spec(pairing_line()) == pairing_line(),
{
    assert(pairing_line().len() == 23);
    assert(pairing_line()[0] == 114);
    assert(pairing_line()[22] == 101);
    assert(pairing_line().last() == 101);
    lemma_trim_of_trimmed(pairing_line());
}

proof fn lemma_pairing_line_not_port()
    ensures
        !starts_with_spec(pairing_line(), port_prefix()),
{
    assert(pairing_line().subrange(0, port_prefix().len() as int)[0] == 114);
    assert(port_prefix()[0] == 112);
}

proof fn lemma_pairing_line_is_pairing()
    ensures
        starts_with_spec(pairing_line(), pairing_prefix()),
{
    assert(pairing_line().subrange(0, pairing_prefix().len() as int) =~= pairing_prefix());
}

proof fn lemma_pairing_line_no_true()
    ensures
        value_after(pairing_line(), pairing_prefix()) != true_value(),
{
    let rest = pairing_line().skip(pairing_prefix().len() as int);
    let false_value = seq![102u8, 97, 108, 115, 101];
    assert(rest =~= seq![32u8] + false_value);
    assert(is_ws(rest[0]));
    assert(rest.skip(1) =~= false_value);
    assert(false_value[0] == 102);
    assert(false_value.last() == 101);
    lemma_trim_of_trimmed(false_value);
    assert(value_after(pairing_line(), pairing_prefix()).len() == 5);
    assert(true_value().len() == 4);
}

proof fn lemma_pairing_line_shape()
    ensures
        pairing_line() != gateway_header(),
        pairing_line().len() > 0,
        pairing_line()[0] != 91,
        no_nl(pairing_line()),
{
    assert(pairing_line().len() == 23);
    assert(gateway_header().len() == 9);
    assert(pairing_line()[0] == 114);
    assert forall|i: int| 0 <= i < pairing_line().len() implies pairing_line()[i] != NL by {}
}

/// Facts about the rewritten pairing line: trimmed, no header, and a fixed
/// point of the line patch.
pub proof fn lemma_pairing_line_facts()
    ensures
        trim_spec(pairing_line()) == pairing_line(),
        spec_patch_line(pairing_line()) == pairing_line(),
        trim_spec(pairing_line()) != gateway_header(),
        !is_section_start(pairing_line()),
        no_nl(pairing_line()),
{
    lemma_pairing_line_trimmed();
    lemma_pairing_line_not_port();
    lemma_pairing_line_is_pairing();
    lemma_pairing_line_no_true();
    lemma_pairing_line_shape();
}

pub proof fn lemma_patch_line_constants()
    ensures
        trim_spec(port_line()) == port_line(),
        trim_spec(pairing_line()) == pairing_line(),
        spec_patch_line(port_line()) == port_line(),
        spec_patch_line(pairing_line()) == pairing_line(),
        trim_spec(port_line()) != gateway_header(),
        trim_spec(pairing_line()) != gateway_header(),
        !is_section_start(port_line()),
        !is_section_start(pairing_line()),
        no_nl(port_line()),
        no_nl(pairing_line()),
{
    lemma_port_line_facts();
    lemma_pairing_line_facts();
}

/// Patching a line twice gives the same line as patching it once.
pub proof fn lemma_patch_line_idempotent(l: Seq<u8>)
    ensures
        spec_patch_line(spec_patch_line(l)) == spec_patch_line(l),
{
    lemma_patch_line_constants();
}

/// One line may differ from its patch only if it is a targeted line: a
/// `port =` line or a `require_pairing =` line.
pub proof fn lemma_patch_line_targets(l: Seq<u8>)
    ensures
        spec_patch_line(l) == l || (spec_patch_line(l) == port_line() && starts_with_spec(
            trim_spec(l),
            port_prefix(),
        )) || (spec_patch_line(l) == pairing_line() && starts_with_spec(
            trim_spec(l),
            pairing_prefix(),
        )),
{
}

/// The scan keeps the number of lines, and every line either stays what it
/// was or is a targeted line, rewritten to one of the two fixed forms.
pub proof fn lemma_patch_scan_targets(ls: Seq<Seq<u8>>, in_gateway: bool)
    ensures
        spec_patch_scan(ls, in_gateway).len() == ls.len(),
        forall|i: int|
            0 <= i < ls.len() ==> (#[trigger] spec_patch_scan(ls, in_gateway)[i] == ls[i] || (
            spec_patch_scan(ls, in_gateway)[i] == port_line() && starts_with_spec(
                trim_spec(ls[i]),
                port_prefix(),
            )) || (spec_patch_scan(ls, in_gateway)[i] == pairing_line() && starts_with_spec(
                trim_spec(ls[i]),
                pairing_prefix(),
            ))),
    decreases ls.len(),
{
    let ps = spec_patch_scan(ls, in_gateway);
    if ls.len() == 0 {
    } else if trim_spec(ls[0]) == gateway_header() {
        lemma_patch_scan_targets(ls.skip(1), true);
        assert forall|i: int|
            0 <= i < ls.len() implies (#[trigger] ps[i] == ls[i] || (ps[i] == port_line()
            && starts_with_spec(trim_spec(ls[i]), port_prefix())) || (ps[i] == pairing_line()
            && starts_with_spec(trim_spec(ls[i]), pairing_prefix()))) by {
            if i > 0 {
                assert(ps[i] == spec_patch_scan(ls.skip(1), true)[i - 1]);
                assert(ls.skip(1)[i - 1] == ls[i]);
            }
        }
    } else if in_gateway && is_section_start(ls[0]) {
    } else if in_gateway {
        lemma_patch_scan_targets(ls.skip(1), true);
        assert forall|i: int|
            0 <= i < ls.len() implies (#[trigger] ps[i] == ls[i] || (ps[i] == port_line()
            && starts_with_spec(trim_spec(ls[i]), port_prefix())) || (ps[i] == pairing_line()
            && starts_with_spec(trim_spec(ls[i]), pairing_prefix()))) by {
            if i == 0 {
                assert(ps[0] == spec_patch_line(ls[0]));
                lemma_patch_line_targets(ls[0]);
            } else {
                assert(ps[i] == spec_patch_scan(ls.skip(1), true)[i - 1]);
                assert(ls.skip(1)[i - 1] == ls[i]);
            }
        }
    } else {
        lemma_patch_scan_targets(ls.skip(1), false);
        assert forall|i: int|
            0 <= i < ls.len() implies (#[trigger] ps[i] == ls[i] || (ps[i] == port_line()
            && starts_with_spec(trim_spec(ls[i]), port_prefix())) || (ps[i] == pairing_line()
            && starts_with_spec(trim_spec(ls[i]), pairing_prefix()))) by {
            if i > 0 {
                assert(ps[i] == spec_patch_scan(ls.skip(1), false)[i - 1]);
                assert(ls.skip(1)[i - 1] == ls[i]);
            }
        }
    }
}

/// The scan never introduces a newline into a line.
pub proof fn lemma_patch_scan_no_nl(ls: Seq<Seq<u8>>, in_gateway: bool)
    requires
        forall|i: int| 0 <= i < ls.len() ==> no_nl(#[trigger] ls[i]),
    ensures
        forall|i: int|
            0 <= i < spec_patch_scan(ls, in_gateway).len() ==> no_nl(
                #[trigger] spec_patch_scan(ls, in_gateway)[i],
            ),
{
    lemma_patch_line_constants();
    lemma_patch_scan_targets(ls, in_gateway);
}

/// Scanning a scanned line sequence changes nothing more.
pub proof fn lemma_patch_scan_idempotent(ls: Seq<Seq<u8>>, in_gateway: bool)
    ensures
        spec_patch_scan(spec_patch_scan(ls, in_gateway), in_gateway) == spec_patch_scan(
            ls,
            in_gateway,
        ),
    decreases ls.len(),
{
    lemma_patch_line_constants();
    let ps = spec_patch_scan(ls, in_gateway);
    if ls.len() == 0 {
    } else if trim_spec(ls[0]) == gateway_header() {
        lemma_patch_scan_idempotent(ls.skip(1), true);
        assert(ps[0] == ls[0]);
        assert(ps.skip(1) =~= spec_patch_scan(ls.skip(1), true));
        assert(spec_patch_scan(ps, in_gateway) == seq![ps[0]] + spec_patch_scan(
            ps.skip(1),
            true,
        ));
        assert(spec_patch_scan(ps, in_gateway) =~= ps);
    } else if in_gateway && is_section_start(ls[0]) {
        assert(ps == ls);
    } else if in_gateway {
        lemma_patch_scan_idempotent(ls.skip(1), true);
        let pl = spec_patch_line(ls[0]);
        assert(ps[0] == pl);
        assert(ps.skip(1) =~= spec_patch_scan(ls.skip(1), true));
        assert(trim_spec(pl) != gateway_header());
        assert(!is_section_start(pl));
        assert(spec_patch_scan(ps, in_gateway) == seq![spec_patch_line(pl)] + spec_patch_scan(
            ps.skip(1),
            true,
        ));
        lemma_patch_line_idempotent(ls[0]);
        assert(spec_patch_scan(ps, in_gateway) =~= ps);
    } else {
        lemma_patch_scan_idempotent(ls.skip(1), false);
        assert(ps[0] == ls[0]);
        assert(ps.skip(1) =~= spec_patch_scan(ls.skip(1), false));
        assert(spec_patch_scan(ps, in_gateway) == seq![ps[0]] + spec_patch_scan(
            ps.skip(1),
            false,
        ));
        assert(spec_patch_scan(ps, in_gateway) =~= ps);
    }
}

/// No line of `s` holds a newline.
pub proof fn lemma_lines_of_no_nl(s: Seq<u8>)
    ensures
        forall|i: int|
            0 <= i < spec_lines_of(s).len() ==> no_nl(#[trigger] spec_lines_of(s)[i]),
{
    if s.len() == 0 {
    } else if s.last() == NL {
        lemma_split_no_nl(s.take(s.len() - 1));
    } else {
        lemma_split_no_nl(s);
    }
}

/// Law: patching a configuration twice gives the same bytes as patching it
/// once; a second patch is a no-op.
pub proof fn lemma_patch_idempotent(content: Seq<u8>)
    ensures
        spec_patch(spec_patch(content)) == spec_patch(content),
{
    let ls = spec_lines_of(content);
    let ps = spec_patch_lines(ls);
    if ps == ls {
    } else {
        if ls.len() == 0 {
            assert(ps =~= ls);
        }
        let c2 = spec_join(ps) + seq![NL];
        lemma_lines_of_no_nl(content);
        lemma_patch_scan_no_nl(ls, false);
        lemma_patch_scan_targets(ls, false);
        lemma_lines_of_join(ps);
        assert(spec_lines_of(c2) == ps);
        lemma_patch_scan_idempotent(ls, false);
        assert(spec_patch_lines(ps) == ps);
        assert(spec_patch(c2) == c2);
    }
}

/// Law: patching changes only the targeted fields.  The patched content has
/// exactly as many lines as the input, and every line either stays what it
/// was, or was a `port =` line and became `port = 18789`, or was a
/// `require_pairing =` line and became `require_pairing = false`.
pub proof fn lemma_patch_changes_only_targets(content: Seq<u8>)
    ensures
        spec_lines_of(spec_patch(content)).len() == spec_lines_of(content).len(),
        forall|i: int|
            0 <= i < spec_lines_of(content).len() ==> (#[trigger] spec_lines_of(
                spec_patch(content),
            )[i] == spec_lines_of(content)[i] || (spec_lines_of(spec_patch(content))[i]
                == port_line() && starts_with_spec(
                trim_spec(spec_lines_of(content)[i]),
                port_prefix(),
            )) || (spec_lines_of(spec_patch(content))[i] == pairing_line() && starts_with_spec(
                trim_spec(spec_lines_of(content)[i]),
                pairing_prefix(),
            ))),
{
    let ls = spec_lines_of(content);
    let ps = spec_patch_lines(ls);
    lemma_patch_scan_targets(ls, false);
    if ps == ls {
    } else {
        if ls.len() == 0 {
            assert(ps =~= ls);
        }
        lemma_lines_of_no_nl(content);
        lemma_patch_scan_no_nl(ls, false);
        lemma_lines_of_join(ps);
        assert(spec_lines_of(spec_patch(content)) == ps);
    }
}

} // verus!
