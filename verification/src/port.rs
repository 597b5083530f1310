//! Forwarded-port bindings read from the outputs of the providers' tools
//! (VirtualBox, Docker, QEMU, Hyper-V, VMware).

use vstd::prelude::*;
use crate::text::{
    chars_of, string_of, slice_chars, trim, trim_chars, has_prefix, starts_with, find_sub,
    find_sub_from, lemma_find_from, parse_uint, parse_uint_chars, split_by, split_chars, views,
    lines, lines_of, last_index, last_index_of, skip_trailing, skip_trailing_chars, first_index,
    first_index_of, is_ws, is_whitespace, str_eq, lowercase, to_lower,
};
use crate::json::{get, get_of, json_parse, parsed_json, Json};

verus! {

/// Forwarded port binding representation.
#[derive(Debug, Clone, PartialEq, Eq)]
pub struct ForwardedPortEntry {
    /// Guest port number.
    pub guest: u16,
    /// Host port number.
    pub host: u16,
    /// Network protocol ("tcp" or "udp").
    pub protocol: String,
}

/// A binding as plain values: guest port, host port, protocol.
pub type PortView = (u16, u16, Seq<char>);

impl View for ForwardedPortEntry {
    type V = PortView;

    open spec fn view(&self) -> PortView {
        (self.guest, self.host, self.protocol@)
    }
}

/// The views of a list of bindings.
pub open spec fn entry_views(v: Seq<ForwardedPortEntry>) -> Seq<PortView> {
    v.map_values(|e: ForwardedPortEntry| e@)
}

/// `acc` with `e` added at the end unless it holds it already.
pub open spec fn add_unique(acc: Seq<PortView>, e: PortView) -> Seq<PortView> {
    if acc.contains(e) {
        acc
    } else {
        acc.push(e)
    }
}

/// `acc` with each of `s` added in turn unless already held.
pub open spec fn add_all_unique(acc: Seq<PortView>, s: Seq<PortView>) -> Seq<PortView>
    decreases s.len(),
{
    if s.len() == 0 {
        acc
    } else {
        add_unique(add_all_unique(acc, s.drop_last()), s.last())
    }
}

/// Adding a concatenation is adding its two parts in turn.
pub proof fn lemma_add_all_unique_concat(acc: Seq<PortView>, a: Seq<PortView>, b: Seq<PortView>)
    ensures
        add_all_unique(acc, a + b) == add_all_unique(add_all_unique(acc, a), b),
    decreases b.len(),
{
    if b.len() == 0 {
        assert(a + b =~= a);
    } else {
        assert((a + b).drop_last() =~= a + b.drop_last());
        assert((a + b).last() == b.last());
        lemma_add_all_unique_concat(acc, a, b.drop_last());
    }
}

/// A list of bindings, or `None` where it is empty.
pub open spec fn as_result(s: Seq<PortView>) -> Option<Seq<PortView>> {
    if s.len() == 0 {
        None
    } else {
        Some(s)
    }
}

/// The candidates that `f` reads from each of the lines, in order.
pub open spec fn collect_lines(ls: Seq<Seq<char>>, f: spec_fn(Seq<char>) -> Seq<PortView>) -> Seq<
    PortView,
>
    decreases ls.len(),
{
    if ls.len() == 0 {
        Seq::empty()
    } else {
        collect_lines(ls.drop_last(), f) + f(ls.last())
    }
}

/// Whether the two bindings are equal.
fn same_entry(a: &ForwardedPortEntry, b: &ForwardedPortEntry) -> (r: bool)
    ensures
        r == (a@ == b@),
{
    a.guest == b.guest && a.host == b.host && str_eq(a.protocol.as_str(), b.protocol.as_str())
}

/// Adds `e` to `entries` unless an equal binding is there already.
fn push_unique(entries: &mut Vec<ForwardedPortEntry>, e: ForwardedPortEntry)
    ensures
        entry_views(final(entries)@) == add_unique(entry_views(old(entries)@), e@),
{
    let ghost before = entry_views(entries@);
    let mut i: usize = 0;
    while i < entries.len()
        invariant
            i <= entries.len(),
            before == entry_views(entries@),
            forall|k: int| 0 <= k < i ==> before[k] != e@,
        decreases entries.len() - i,
    {
        if same_entry(&entries[i], &e) {
            assert(before[i as int] == e@);
            return;
        }
        i = i + 1;
    }
    assert(!before.contains(e@));
    entries.push(e);
    assert(entry_views(entries@) =~= before.push(e@));
}

/// Adds each of `cands` to `entries` in turn unless already there.
fn push_all_unique(entries: &mut Vec<ForwardedPortEntry>, cands: Vec<ForwardedPortEntry>)
    ensures
        entry_views(final(entries)@) == add_all_unique(
            entry_views(old(entries)@),
            entry_views(cands@),
        ),
{
    let ghost start = entry_views(entries@);
    let ghost cs = entry_views(cands@);
    let mut i: usize = 0;
    while i < cands.len()
        invariant
            i <= cands.len(),
            cs == entry_views(cands@),
            entry_views(entries@) == add_all_unique(start, cs.take(i as int)),
        decreases cands.len() - i,
    {
        assert(cs.take(i + 1).drop_last() =~= cs.take(i as int));
        push_unique(entries, cands[i].clone_entry());
        i = i + 1;
    }
    assert(cs.take(cands.len() as int) =~= cs);
}

impl ForwardedPortEntry {
    /// A copy of this binding.
    pub fn clone_entry(&self) -> (r: ForwardedPortEntry)
        ensures
            r@ == self@,
    {
        ForwardedPortEntry { guest: self.guest, host: self.host, protocol: self.protocol.clone() }
    }
}

/// Returns `entries`, or `None` where it is empty.
fn finish(entries: Vec<ForwardedPortEntry>) -> (r: Option<Vec<ForwardedPortEntry>>)
    ensures
        r matches Some(v) ==> as_result(entry_views(entries@)) == Some(entry_views(v@)),
        r is None ==> as_result(entry_views(entries@)) is None,
{
    if entries.len() == 0 {
        None
    } else {
        Some(entries)
    }
}

/// The port that `s` spells, where it is one.
pub open spec fn port_of(s: Seq<char>) -> Option<u16> {
    match parse_uint(s, 65535) {
        Some(n) => Some(n as u16),
        None => None,
    }
}

fn port_from(v: &Vec<char>) -> (r: Option<u16>)
    ensures
        r == port_of(v@),
{
    match parse_uint_chars(v, 65535) {
        Some(n) => Some(n as u16),
        None => None,
    }
}

fn lower_chars(v: &Vec<char>) -> (r: String)
    ensures
        r@ == lowercase(v@),
{
    let s = string_of(v);
    to_lower(s.as_str())
}

// ---------------------------------------------------------------- VirtualBox

/// The binding on one line of `VBoxManage showvminfo --machinereadable`
/// output: `Forwarding(..)="name,proto,hostip,hostport,guestip,guestport"`.
pub open spec fn vbox_line(line: Seq<char>) -> Seq<PortView> {
    let t = trim(line);
    let pre = "Forwarding("@;
    if !has_prefix(t, pre) {
        Seq::empty()
    } else {
        let st = t.skip(pre.len() as int);
        match find_sub(st, seq!['=', '"']) {
            None => Seq::empty(),
            Some(pos) => {
                let parts = split_by(skip_trailing(st.skip(pos + 2), '"'), seq![',']);
                if parts.len() >= 6 && port_of(parts[3]) is Some && port_of(parts[5]) is Some {
                    seq![(port_of(parts[5])->0, port_of(parts[3])->0, parts[1])]
                } else {
                    Seq::empty()
                }
            },
        }
    }
}

fn vbox_entry(line: &Vec<char>) -> (r: Vec<ForwardedPortEntry>)
    ensures
        entry_views(r@) == vbox_line(line@),
{
    let t = trim_chars(line);
    let pre = chars_of("Forwarding(");
    let mut out: Vec<ForwardedPortEntry> = Vec::new();
    assert(entry_views(out@) =~= Seq::<PortView>::empty());
    if !starts_with(&t, &pre) {
        return out;
    }
    let st = slice_chars(&t, pre.len(), t.len());
    assert(st@ =~= t@.skip(pre@.len() as int));
    let marker: Vec<char> = vec!['=', '"'];
    assert(marker@ =~= seq!['=', '"']);
    match find_sub_from(&st, &marker, 0) {
        None => out,
        Some(pos) => {
            proof {
                lemma_find_from(st@, marker@, 0);
            }
            let rest = slice_chars(&st, pos + 2, st.len());
            assert(rest@ =~= st@.skip(pos + 2));
            let rule = skip_trailing_chars(&rest, '"');
            let comma: Vec<char> = vec![','];
            assert(comma@ =~= seq![',']);
            let parts = split_chars(&rule, &comma);
            let ghost ps = views(parts@);
            assert(ps.len() == parts@.len());
            if parts.len() >= 6 {
                assert(ps[3] == parts@[3]@ && ps[5] == parts@[5]@ && ps[1] == parts@[1]@);
                match (port_from(&parts[3]), port_from(&parts[5])) {
                    (Some(h), Some(g)) => {
                        out.push(
                            ForwardedPortEntry { guest: g, host: h, protocol: string_of(&parts[1]) },
                        );
                        assert(entry_views(out@) =~= seq![(g, h, ps[1])]);
                    },
                    _ => {},
                }
            }
            out
        },
    }
}

/// The bindings of `VBoxManage showvminfo --machinereadable` output, in
/// order, or `None` where there are none.
pub open spec fn vbox_ports(text: Seq<char>) -> Option<Seq<PortView>> {
    as_result(collect_lines(lines(text), |l: Seq<char>| vbox_line(l)))
}

/// Parses forwarded port entries from `VBoxManage showvminfo --machinereadable` output.
pub fn parse_vboxmanage_ports(text: &str) -> (r: Option<Vec<ForwardedPortEntry>>)
    ensures
        r matches Some(v) ==> vbox_ports(text@) == Some(entry_views(v@)),
        r is None ==> vbox_ports(text@) is None,
{
    let chars = chars_of(text);
    let ls = lines_of(&chars);
    let ghost all = views(ls@);
    let ghost f = |l: Seq<char>| vbox_line(l);
    let mut entries: Vec<ForwardedPortEntry> = Vec::new();
    let mut i: usize = 0;
    while i < ls.len()
        invariant
            i <= ls.len(),
            all == views(ls@),
            all == lines(text@),
            f == (|l: Seq<char>| vbox_line(l)),
            entry_views(entries@) == collect_lines(all.take(i as int), f),
        decreases ls.len() - i,
    {
        assert(all.take(i + 1).drop_last() =~= all.take(i as int));
        assert(all.take(i + 1).last() == ls@[i as int]@);
        let mut found = vbox_entry(&ls[i]);
        let ghost before = entry_views(entries@);
        entries.append(&mut found);
        assert(entry_views(entries@) =~= before + vbox_line(ls@[i as int]@));
        i = i + 1;
    }
    assert(all.take(ls.len() as int) =~= all);
    finish(entries)
}

// ---------------------------------------------------------------- Docker

/// The binding on one line of `docker port` output:
/// `guestport/proto -> hostip:hostport`.
pub open spec fn docker_line(line: Seq<char>) -> Seq<PortView> {
    let t = trim(line);
    let arrow = " -> "@;
    match find_sub(t, arrow) {
        None => Seq::empty(),
        Some(j) => {
            let left = t.take(j);
            let right = t.skip(j + arrow.len());
            let lp = split_by(left, seq!['/']);
            if lp.len() == 2 && port_of(lp[0]) is Some {
                match last_index(right, ':') {
                    Some(pos) => match port_of(right.skip(pos + 1)) {
                        Some(h) => seq![(port_of(lp[0])->0, h, lowercase(lp[1]))],
                        None => Seq::empty(),
                    },
                    None => Seq::empty(),
                }
            } else {
                Seq::empty()
            }
        },
    }
}

fn docker_entry(line: &Vec<char>) -> (r: Vec<ForwardedPortEntry>)
    ensures
        entry_views(r@) == docker_line(line@),
{
    let t = trim_chars(line);
    let arrow = chars_of(" -> ");
    let mut out: Vec<ForwardedPortEntry> = Vec::new();
    assert(entry_views(out@) =~= Seq::<PortView>::empty());
    match find_sub_from(&t, &arrow, 0) {
        None => out,
        Some(j) => {
            proof {
                lemma_find_from(t@, arrow@, 0);
            }
            let left = slice_chars(&t, 0, j);
            assert(left@ =~= t@.take(j as int));
            let right = slice_chars(&t, j + arrow.len(), t.len());
            assert(right@ =~= t@.skip(j + arrow@.len()));
            let slash: Vec<char> = vec!['/'];
            assert(slash@ =~= seq!['/']);
            let lp = split_chars(&left, &slash);
            let ghost ps = views(lp@);
            assert(ps.len() == lp@.len());
            if lp.len() == 2 {
                assert(ps[0] == lp@[0]@ && ps[1] == lp@[1]@);
                match port_from(&lp[0]) {
                    Some(g) => {
                        match last_index_of(&right, ':') {
                            Some(pos) => {
                                let after = slice_chars(&right, pos + 1, right.len());
                                assert(after@ =~= right@.skip(pos + 1));
                                match port_from(&after) {
                                    Some(h) => {
                                        let protocol = lower_chars(&lp[1]);
                                        out.push(ForwardedPortEntry { guest: g, host: h, protocol });
                                        assert(entry_views(out@) =~= seq![(g, h, lowercase(ps[1]))]);
                                    },
                                    None => {},
                                }
                            },
                            None => {},
                        }
                    },
                    None => {},
                }
            }
            out
        },
    }
}

/// The bindings of `docker port` output, each once, in order of first
/// appearance, or `None` where there are none.
pub open spec fn docker_ports(text: Seq<char>) -> Option<Seq<PortView>> {
    as_result(add_all_unique(Seq::empty(), collect_lines(lines(text), |l: Seq<char>| docker_line(l))))
}

/// Parses forwarded port entries from `docker port` output.
pub fn parse_docker_ports(text: &str) -> (r: Option<Vec<ForwardedPortEntry>>)
    ensures
        r matches Some(v) ==> docker_ports(text@) == Some(entry_views(v@)),
        r is None ==> docker_ports(text@) is None,
{
    let chars = chars_of(text);
    let ls = lines_of(&chars);
    let ghost all = views(ls@);
    let ghost f = |l: Seq<char>| docker_line(l);
    let mut entries: Vec<ForwardedPortEntry> = Vec::new();
    assert(entry_views(entries@) =~= Seq::<PortView>::empty());
    let mut i: usize = 0;
    while i < ls.len()
        invariant
            i <= ls.len(),
            all == views(ls@),
            all == lines(text@),
            f == (|l: Seq<char>| docker_line(l)),
            entry_views(entries@) == add_all_unique(Seq::empty(), collect_lines(all.take(i as int), f)),
        decreases ls.len() - i,
    {
        assert(all.take(i + 1).drop_last() =~= all.take(i as int));
        assert(all.take(i + 1).last() == ls@[i as int]@);
        let found = docker_entry(&ls[i]);
        proof {
            lemma_add_all_unique_concat(Seq::empty(), collect_lines(all.take(i as int), f), f(ls@[i as int]@));
        }
        push_all_unique(&mut entries, found);
        i = i + 1;
    }
    assert(all.take(ls.len() as int) =~= all);
    finish(entries)
}

// ---------------------------------------------------------------- QEMU

/// The whitespace-separated words of `s`, with the word being read.
pub open spec fn words_acc(s: Seq<char>) -> (Seq<Seq<char>>, Seq<char>)
    decreases s.len(),
{
    if s.len() == 0 {
        (Seq::empty(), Seq::empty())
    } else {
        let (ws, cur) = words_acc(s.drop_last());
        if is_ws(s.last()) {
            if cur.len() > 0 {
                (ws.push(cur), Seq::empty())
            } else {
                (ws, cur)
            }
        } else {
            (ws, cur.push(s.last()))
        }
    }
}

/// The whitespace-separated words of `s` (std `str::split_whitespace`).
pub open spec fn words(s: Seq<char>) -> Seq<Seq<char>> {
    let (ws, cur) = words_acc(s);
    if cur.len() > 0 {
        ws.push(cur)
    } else {
        ws
    }
}

fn words_of(s: &Vec<char>) -> (r: Vec<Vec<char>>)
    ensures
        views(r@) == words(s@),
{
    let mut ws: Vec<Vec<char>> = Vec::new();
    let mut cur: Vec<char> = Vec::new();
    let mut i: usize = 0;
    while i < s.len()
        invariant
            i <= s.len(),
            words_acc(s@.take(i as int)) == (views(ws@), cur@),
        decreases s.len() - i,
    {
        assert(s@.take(i + 1).drop_last() =~= s@.take(i as int));
        assert(s@.take(i + 1).last() == s@[i as int]);
        if is_whitespace(s[i]) {
            if cur.len() > 0 {
                let ghost before = views(ws@);
                let ghost c = cur@;
                let done = cur;
                ws.push(done);
                cur = Vec::new();
                assert(views(ws@) =~= before.push(c));
                assert(cur@ =~= Seq::<char>::empty());
            }
        } else {
            cur.push(s[i]);
        }
        i = i + 1;
    }
    assert(s@.take(s.len() as int) =~= s@);
    if cur.len() > 0 {
        let ghost before = views(ws@);
        let ghost c = cur@;
        ws.push(cur);
        assert(views(ws@) =~= before.push(c));
    }
    ws
}

/// The binding of one `hostfwd=` rule: `proto:hostip:hostport-guestip:guestport`,
/// cut at the first `,` or space.
pub open spec fn hostfwd_rule(part: Seq<char>) -> Seq<PortView> {
    let rule = part.take(first_index(part, seq![',', ' ']));
    let d = first_index(rule, seq!['-']);
    if d >= rule.len() {
        Seq::empty()
    } else {
        let host_part = rule.take(d);
        let guest_part = rule.skip(d + 1);
        let proto = lowercase(host_part.take(first_index(host_part, seq![':'])));
        match (last_index(host_part, ':'), last_index(guest_part, ':')) {
            (Some(hp), Some(gp)) => match (
                port_of(host_part.skip(hp + 1)),
                port_of(guest_part.skip(gp + 1)),
            ) {
                (Some(h), Some(g)) => seq![(g, h, proto)],
                _ => Seq::empty(),
            },
            _ => Seq::empty(),
        }
    }
}

/// The bindings of the `hostfwd=` rules: every piece but the first of the
/// line cut at `hostfwd=`, in order.
pub open spec fn hostfwd_all(parts: Seq<Seq<char>>) -> Seq<PortView>
    decreases parts.len(),
{
    if parts.len() <= 1 {
        Seq::empty()
    } else {
        hostfwd_all(parts.drop_last()) + hostfwd_rule(parts.last())
    }
}

/// The binding of an `info usernet` line that holds `[HOST_FORWARD]`:
/// protocol `udp` where the line starts with `UDP` and `tcp` otherwise, host
/// port in the fourth word and guest port in the sixth.
pub open spec fn host_forward_line(t: Seq<char>) -> Seq<PortView> {
    if find_sub(t, "[HOST_FORWARD]"@) is None {
        Seq::empty()
    } else {
        let proto = if has_prefix(t, "UDP"@) {
            "udp"@
        } else {
            "tcp"@
        };
        let ws = words(t);
        if ws.len() >= 6 {
            match (port_of(ws[3]), port_of(ws[5])) {
                (Some(h), Some(g)) => seq![(g, h, proto)],
                _ => Seq::empty(),
            }
        } else {
            Seq::empty()
        }
    }
}

/// The bindings on one line of QEMU output: its `hostfwd=` rules, then its
/// `[HOST_FORWARD]` entry.
pub open spec fn qemu_line(line: Seq<char>) -> Seq<PortView> {
    let t = trim(line);
    hostfwd_all(split_by(t, "hostfwd="@)) + host_forward_line(t)
}

fn hostfwd_entry(part: &Vec<char>) -> (r: Vec<ForwardedPortEntry>)
    ensures
        entry_views(r@) == hostfwd_rule(part@),
{
    let mut out: Vec<ForwardedPortEntry> = Vec::new();
    assert(entry_views(out@) =~= Seq::<PortView>::empty());
    let cut: Vec<char> = vec![',', ' '];
    assert(cut@ =~= seq![',', ' ']);
    let e = first_index_of(part, &cut);
    let rule = slice_chars(part, 0, e);
    assert(rule@ =~= part@.take(e as int));
    let dash: Vec<char> = vec!['-'];
    assert(dash@ =~= seq!['-']);
    let d = first_index_of(&rule, &dash);
    if d >= rule.len() {
        return out;
    }
    let host_part = slice_chars(&rule, 0, d);
    assert(host_part@ =~= rule@.take(d as int));
    let guest_part = slice_chars(&rule, d + 1, rule.len());
    assert(guest_part@ =~= rule@.skip(d + 1));
    let colon: Vec<char> = vec![':'];
    assert(colon@ =~= seq![':']);
    let c = first_index_of(&host_part, &colon);
    let proto_chars = slice_chars(&host_part, 0, c);
    assert(proto_chars@ =~= host_part@.take(c as int));
    match (last_index_of(&host_part, ':'), last_index_of(&guest_part, ':')) {
        (Some(hp), Some(gp)) => {
            let hs = slice_chars(&host_part, hp + 1, host_part.len());
            assert(hs@ =~= host_part@.skip(hp + 1));
            let gs = slice_chars(&guest_part, gp + 1, guest_part.len());
            assert(gs@ =~= guest_part@.skip(gp + 1));
            match (port_from(&hs), port_from(&gs)) {
                (Some(h), Some(g)) => {
                    let protocol = lower_chars(&proto_chars);
                    out.push(ForwardedPortEntry { guest: g, host: h, protocol });
                    assert(entry_views(out@) =~= seq![(g, h, lowercase(proto_chars@))]);
                },
                _ => {},
            }
        },
        _ => {},
    }
    out
}

fn qemu_entries(line: &Vec<char>) -> (r: Vec<ForwardedPortEntry>)
    ensures
        entry_views(r@) == qemu_line(line@),
{
    let t = trim_chars(line);
    let key = chars_of("hostfwd=");
    let mut out: Vec<ForwardedPortEntry> = Vec::new();
    if key.len() > 0 {
        let parts = split_chars(&t, &key);
        let ghost ps = views(parts@);
        assert(ps.len() == parts@.len());
        assert(entry_views(out@) =~= hostfwd_all(ps.take(1)));
        let mut k: usize = 1;
        while k < parts.len()
            invariant
                1 <= k,
                k <= parts.len() || parts.len() == 0,
                ps == views(parts@),
                ps.len() == parts@.len(),
                entry_views(out@) == hostfwd_all(ps.take(k as int)),
            decreases parts.len() - k,
        {
            assert(ps.take(k + 1).drop_last() =~= ps.take(k as int));
            assert(ps.take(k + 1).last() == parts@[k as int]@);
            let mut found = hostfwd_entry(&parts[k]);
            let ghost before = entry_views(out@);
            out.append(&mut found);
            assert(entry_views(out@) =~= before + hostfwd_rule(parts@[k as int]@));
            k = k + 1;
        }
        if parts.len() > 0 {
            assert(ps.take(k as int) =~= ps);
        } else {
            assert(hostfwd_all(ps) =~= Seq::<PortView>::empty());
            assert(entry_views(out@) =~= Seq::<PortView>::empty()) by {
                assert(ps.take(1) =~= ps);
            }
        }
    }
    let ghost hf = entry_views(out@);
    let marker = chars_of("[HOST_FORWARD]");
    let has_marker = match find_sub_from(&t, &marker, 0) {
        Some(_) => true,
        None => false,
    };
    if has_marker {
        let udp = chars_of("UDP");
        let proto = if starts_with(&t, &udp) {
            "udp".to_owned()
        } else {
            "tcp".to_owned()
        };
        let ws = words_of(&t);
        let ghost wv = views(ws@);
        assert(wv.len() == ws@.len());
        if ws.len() >= 6 {
            assert(wv[3] == ws@[3]@ && wv[5] == ws@[5]@);
            match (port_from(&ws[3]), port_from(&ws[5])) {
                (Some(h), Some(g)) => {
                    let ghost pv = proto@;
                    out.push(ForwardedPortEntry { guest: g, host: h, protocol: proto });
                    assert(entry_views(out@) =~= hf + seq![(g, h, pv)]);
                },
                _ => {
                    assert(entry_views(out@) =~= hf + Seq::<PortView>::empty());
                },
            }
        } else {
            assert(entry_views(out@) =~= hf + Seq::<PortView>::empty());
        }
    } else {
        assert(entry_views(out@) =~= hf + Seq::<PortView>::empty());
    }
    out
}

/// The bindings of QEMU output (`-netdev ... hostfwd=` rules and `info
/// usernet` tables), each once, in order of first appearance, or `None`
/// where there are none.
pub open spec fn qemu_ports(text: Seq<char>) -> Option<Seq<PortView>> {
    as_result(add_all_unique(Seq::empty(), collect_lines(lines(text), |l: Seq<char>| qemu_line(l))))
}

/// Parses forwarded port entries from QEMU command lines and `info usernet`
/// output.
pub fn parse_qemu_ports(text: &str) -> (r: Option<Vec<ForwardedPortEntry>>)
    ensures
        r matches Some(v) ==> qemu_ports(text@) == Some(entry_views(v@)),
        r is None ==> qemu_ports(text@) is None,
{
    let chars = chars_of(text);
    let ls = lines_of(&chars);
    let ghost all = views(ls@);
    let ghost f = |l: Seq<char>| qemu_line(l);
    let mut entries: Vec<ForwardedPortEntry> = Vec::new();
    assert(entry_views(entries@) =~= Seq::<PortView>::empty());
    let mut i: usize = 0;
    while i < ls.len()
        invariant
            i <= ls.len(),
            all == views(ls@),
            all == lines(text@),
            f == (|l: Seq<char>| qemu_line(l)),
            entry_views(entries@) == add_all_unique(Seq::empty(), collect_lines(all.take(i as int), f)),
        decreases ls.len() - i,
    {
        assert(all.take(i + 1).drop_last() =~= all.take(i as int));
        assert(all.take(i + 1).last() == ls@[i as int]@);
        let found = qemu_entries(&ls[i]);
        proof {
            lemma_add_all_unique_concat(Seq::empty(), collect_lines(all.take(i as int), f), f(ls@[i as int]@));
        }
        push_all_unique(&mut entries, found);
        i = i + 1;
    }
    assert(all.take(ls.len() as int) =~= all);
    finish(entries)
}

// ---------------------------------------------------------------- VMware

/// The binding of a line of a `nat.conf` section: `hostport = guestip:guestport`,
/// where the section is `incomingtcp` or `incomingudp`.
pub open spec fn vmware_entry(section: Seq<char>, t: Seq<char>) -> Seq<PortView> {
    let proto = if section == "incomingtcp"@ {
        Some("tcp"@)
    } else if section == "incomingudp"@ {
        Some("udp"@)
    } else {
        None::<Seq<char>>
    };
    let d = first_index(t, seq!['=']);
    match proto {
        None => Seq::empty(),
        Some(p) => if d >= t.len() {
            Seq::empty()
        } else {
            let target = trim(t.skip(d + 1));
            match (port_of(trim(t.take(d))), last_index(target, ':')) {
                (Some(h), Some(pos)) => match port_of(target.skip(pos + 1)) {
                    Some(g) => seq![(g, h, p)],
                    None => Seq::empty(),
                },
                _ => Seq::empty(),
            }
        },
    }
}

/// Whether a trimmed `nat.conf` line is a section header `[..]`.
pub open spec fn is_header(t: Seq<char>) -> bool {
    t.len() > 0 && t[0] == '[' && t.last() == ']'
}

/// Reads `nat.conf` lines in order: the current section (lowercased) and
/// the bindings so far. Comments and blank lines are passed over.
pub open spec fn vmware_scan(ls: Seq<Seq<char>>) -> (Seq<char>, Seq<PortView>)
    decreases ls.len(),
{
    if ls.len() == 0 {
        (Seq::empty(), Seq::empty())
    } else {
        let (section, found) = vmware_scan(ls.drop_last());
        let t = trim(ls.last());
        if t.len() == 0 || t[0] == '#' {
            (section, found)
        } else if is_header(t) {
            (lowercase(t.subrange(1, t.len() - 1)), found)
        } else {
            (section, found + vmware_entry(section, t))
        }
    }
}

/// The bindings of a VMware `nat.conf`, each once, in order of first
/// appearance, or `None` where there are none.
pub open spec fn vmware_ports(text: Seq<char>) -> Option<Seq<PortView>> {
    as_result(add_all_unique(Seq::empty(), vmware_scan(lines(text)).1))
}

fn vmware_line_entry(section: &str, t: &Vec<char>) -> (r: Vec<ForwardedPortEntry>)
    ensures
        entry_views(r@) == vmware_entry(section@, t@),
{
    let mut out: Vec<ForwardedPortEntry> = Vec::new();
    assert(entry_views(out@) =~= Seq::<PortView>::empty());
    let proto = if str_eq(section, "incomingtcp") {
        "tcp"
    } else if str_eq(section, "incomingudp") {
        "udp"
    } else {
        return out;
    };
    let eq: Vec<char> = vec!['='];
    assert(eq@ =~= seq!['=']);
    let d = first_index_of(t, &eq);
    if d >= t.len() {
        return out;
    }
    let host_str = slice_chars(t, 0, d);
    assert(host_str@ =~= t@.take(d as int));
    let target_raw = slice_chars(t, d + 1, t.len());
    assert(target_raw@ =~= t@.skip(d + 1));
    let host_trim = trim_chars(&host_str);
    let target = trim_chars(&target_raw);
    match (port_from(&host_trim), last_index_of(&target, ':')) {
        (Some(h), Some(pos)) => {
            let gs = slice_chars(&target, pos + 1, target.len());
            assert(gs@ =~= target@.skip(pos + 1));
            match port_from(&gs) {
                Some(g) => {
                    out.push(ForwardedPortEntry { guest: g, host: h, protocol: proto.to_owned() });
                    assert(entry_views(out@) =~= seq![(g, h, proto@)]);
                },
                None => {},
            }
        },
        _ => {},
    }
    out
}

/// Parses forwarded port entries from a VMware `nat.conf`.
pub fn parse_vmware_nat_conf(text: &str) -> (r: Option<Vec<ForwardedPortEntry>>)
    ensures
        r matches Some(v) ==> vmware_ports(text@) == Some(entry_views(v@)),
        r is None ==> vmware_ports(text@) is None,
{
    let chars = chars_of(text);
    let ls = lines_of(&chars);
    let ghost all = views(ls@);
    let mut entries: Vec<ForwardedPortEntry> = Vec::new();
    assert(entry_views(entries@) =~= Seq::<PortView>::empty());
    let mut section = String::new();
    let mut i: usize = 0;
    while i < ls.len()
        invariant
            i <= ls.len(),
            all == views(ls@),
            all == lines(text@),
            section@ == vmware_scan(all.take(i as int)).0,
            entry_views(entries@) == add_all_unique(Seq::empty(), vmware_scan(all.take(i as int)).1),
        decreases ls.len() - i,
    {
        assert(all.take(i + 1).drop_last() =~= all.take(i as int));
        assert(all.take(i + 1).last() == ls@[i as int]@);
        let t = trim_chars(&ls[i]);
        if t.len() == 0 || t[0] == '#' {
        } else if t[0] == '[' && t[t.len() - 1] == ']' {
            let inner = slice_chars(&t, 1, t.len() - 1);
            section = lower_chars(&inner);
        } else {
            let found = vmware_line_entry(section.as_str(), &t);
            proof {
                lemma_add_all_unique_concat(
                    Seq::empty(),
                    vmware_scan(all.take(i as int)).1,
                    vmware_entry(section@, t@),
                );
            }
            push_all_unique(&mut entries, found);
        }
        i = i + 1;
    }
    assert(all.take(ls.len() as int) =~= all);
    finish(entries)
}

// ---------------------------------------------------------------- Hyper-V

/// What a `Get-VMNetworkAdapter`-style listing has told so far of the
/// binding being read: protocol, host port and guest port.
pub type HypervFields = (Option<Seq<char>>, Option<u16>, Option<u16>);

/// The binding that complete fields make.
pub open spec fn fields_entry(f: HypervFields) -> Seq<PortView> {
    match f {
        (Some(p), Some(h), Some(g)) => seq![(g, h, p)],
        _ => Seq::empty(),
    }
}

/// The fields after one non-blank `key: value` line.
pub open spec fn fields_after(f: HypervFields, t: Seq<char>) -> HypervFields {
    let d = first_index(t, seq![':']);
    if d >= t.len() {
        f
    } else {
        let key = trim(t.take(d));
        let val = trim(t.skip(d + 1));
        if key == "Protocol"@ {
            (Some(lowercase(val)), f.1, f.2)
        } else if key == "ExternalPort"@ {
            (f.0, port_of(val), f.2)
        } else if key == "InternalPort"@ {
            (f.0, f.1, port_of(val))
        } else {
            f
        }
    }
}

/// Reads `key: value` blocks in order: a blank line ends a block, making a
/// binding where it told all three fields.
pub open spec fn hyperv_scan(ls: Seq<Seq<char>>) -> (HypervFields, Seq<PortView>)
    decreases ls.len(),
{
    if ls.len() == 0 {
        ((None, None, None), Seq::empty())
    } else {
        let (f, found) = hyperv_scan(ls.drop_last());
        let t = trim(ls.last());
        if t.len() == 0 {
            ((None, None, None), found + fields_entry(f))
        } else {
            (fields_after(f, t), found)
        }
    }
}

/// The bindings of a `key: value` listing, each once, in order of first
/// appearance; the last block needs no blank line after it.
pub open spec fn hyperv_text_ports(text: Seq<char>) -> Seq<PortView> {
    let (f, found) = hyperv_scan(lines(text));
    add_all_unique(Seq::empty(), found + fields_entry(f))
}

fn fields_binding(
    proto: &Option<String>,
    host: Option<u16>,
    guest: Option<u16>,
) -> (r: Vec<ForwardedPortEntry>)
    ensures
        entry_views(r@) == fields_entry(
            (match proto { Some(p) => Some(p@), None => None }, host, guest),
        ),
{
    let mut out: Vec<ForwardedPortEntry> = Vec::new();
    match (proto, host, guest) {
        (Some(p), Some(h), Some(g)) => {
            out.push(ForwardedPortEntry { guest: g, host: h, protocol: p.clone() });
            assert(entry_views(out@) =~= seq![(g, h, p@)]);
        },
        _ => {
            assert(entry_views(out@) =~= Seq::<PortView>::empty());
        },
    }
    out
}

/// Reads the bindings of a Hyper-V `key: value` listing
/// (`Protocol`, `ExternalPort`, `InternalPort`).
pub fn parse_hyperv_text_ports(text: &str) -> (r: Vec<ForwardedPortEntry>)
    ensures
        entry_views(r@) == hyperv_text_ports(text@),
{
    let chars = chars_of(text);
    let ls = lines_of(&chars);
    let ghost all = views(ls@);
    let mut entries: Vec<ForwardedPortEntry> = Vec::new();
    assert(entry_views(entries@) =~= Seq::<PortView>::empty());
    let mut proto: Option<String> = None;
    let mut host: Option<u16> = None;
    let mut guest: Option<u16> = None;
    let mut i: usize = 0;
    while i < ls.len()
        invariant
            i <= ls.len(),
            all == views(ls@),
            all == lines(text@),
            hyperv_scan(all.take(i as int)).0 == (
                match proto { Some(p) => Some(p@), None => None::<Seq<char>> },
                host,
                guest,
            ),
            entry_views(entries@) == add_all_unique(
                Seq::empty(),
                hyperv_scan(all.take(i as int)).1,
            ),
        decreases ls.len() - i,
    {
        assert(all.take(i + 1).drop_last() =~= all.take(i as int));
        assert(all.take(i + 1).last() == ls@[i as int]@);
        let t = trim_chars(&ls[i]);
        if t.len() == 0 {
            let found = fields_binding(&proto, host, guest);
            proof {
                lemma_add_all_unique_concat(
                    Seq::empty(),
                    hyperv_scan(all.take(i as int)).1,
                    entry_views(found@),
                );
            }
            push_all_unique(&mut entries, found);
            proto = None;
            host = None;
            guest = None;
        } else {
            let colon: Vec<char> = vec![':'];
            assert(colon@ =~= seq![':']);
            let d = first_index_of(&t, &colon);
            if d < t.len() {
                let k = slice_chars(&t, 0, d);
                assert(k@ =~= t@.take(d as int));
                let v = slice_chars(&t, d + 1, t.len());
                assert(v@ =~= t@.skip(d + 1));
                let key = string_of(&trim_chars(&k));
                let val = trim_chars(&v);
                if str_eq(key.as_str(), "Protocol") {
                    proto = Some(lower_chars(&val));
                } else if str_eq(key.as_str(), "ExternalPort") {
                    host = port_from(&val);
                } else if str_eq(key.as_str(), "InternalPort") {
                    guest = port_from(&val);
                }
            }
        }
        i = i + 1;
    }
    assert(all.take(ls.len() as int) =~= all);
    let last = fields_binding(&proto, host, guest);
    proof {
        lemma_add_all_unique_concat(Seq::empty(), hyperv_scan(all).1, entry_views(last@));
    }
    push_all_unique(&mut entries, last);
    entries
}

/// The values that Hyper-V JSON output lists: the elements of an array, an
/// object alone, and nothing for any other value.
pub open spec fn json_items(v: Json) -> Seq<Json> {
    match v {
        Json::Array(a) => a@,
        Json::Object(_) => seq![v],
        _ => Seq::empty(),
    }
}

/// The port in the field `key` of `item`: a number in `u16`.
pub open spec fn json_port(item: Json, key: Seq<char>) -> Option<u16> {
    match get_of(item, key) {
        Some(Json::Number(Some(n))) => if n <= 65535 {
            Some(n as u16)
        } else {
            None
        },
        _ => None,
    }
}

/// The protocol of `item`: its `Protocol` string, `TCP` where it has none,
/// lowercased.
pub open spec fn json_protocol(item: Json) -> Seq<char> {
    lowercase(
        match get_of(item, "Protocol"@) {
            Some(Json::Str(s)) => s@,
            _ => "TCP"@,
        },
    )
}

/// The binding that `item` describes, where it has both ports.
pub open spec fn json_binding(item: Json) -> Option<PortView> {
    match (json_port(item, "ExternalPort"@), json_port(item, "InternalPort"@)) {
        (Some(h), Some(g)) => Some((g, h, json_protocol(item))),
        _ => None,
    }
}

/// The bindings that a list of items describes, each kept once.
pub open spec fn json_bindings(items: Seq<Json>) -> Seq<PortView>
    decreases items.len(),
{
    if items.len() == 0 {
        Seq::empty()
    } else {
        let acc = json_bindings(items.drop_last());
        match json_binding(items.last()) {
            Some(e) => add_unique(acc, e),
            None => acc,
        }
    }
}

/// The bindings of Hyper-V JSON output, given its parse.
pub open spec fn hyperv_json_ports(doc: Option<Json>) -> Seq<PortView> {
    match doc {
        Some(v) => json_bindings(json_items(v)),
        None => Seq::empty(),
    }
}

/// Returns the port in the field `key` of `item`.
fn port_field(item: &Json, key: &str) -> (r: Option<u16>)
    ensures
        r == json_port(*item, key@),
{
    match get(item, key) {
        Some(Json::Number(Some(n))) => if *n <= 65535 {
            Some(*n as u16)
        } else {
            None
        },
        _ => None,
    }
}

/// Returns the protocol of `item`.
fn protocol_field(item: &Json) -> (r: String)
    ensures
        r@ == json_protocol(*item),
{
    match get(item, "Protocol") {
        Some(Json::Str(s)) => to_lower(s.as_str()),
        _ => to_lower("TCP"),
    }
}

/// Adds the binding that `item` describes, unless already there.
fn push_json_binding(entries: &mut Vec<ForwardedPortEntry>, item: &Json)
    ensures
        entry_views(final(entries)@) == match json_binding(*item) {
            Some(e) => add_unique(entry_views(old(entries)@), e),
            None => entry_views(old(entries)@),
        },
{
    match (port_field(item, "ExternalPort"), port_field(item, "InternalPort")) {
        (Some(h), Some(g)) => {
            let protocol = protocol_field(item);
            push_unique(entries, ForwardedPortEntry { guest: g, host: h, protocol });
        },
        _ => {},
    }
}

/// Reads the bindings of parsed Hyper-V JSON output (an object, or an array
/// of objects, with `Protocol`, `ExternalPort` and `InternalPort`); the
/// protocol defaults to `tcp` and is lowercased. Each binding is kept once.
pub fn hyperv_json_entries(doc: &Option<Json>) -> (r: Vec<ForwardedPortEntry>)
    ensures
        entry_views(r@) == hyperv_json_ports(*doc),
{
    let mut entries: Vec<ForwardedPortEntry> = Vec::new();
    assert(entry_views(entries@) =~= Seq::<PortView>::empty());
    match doc {
        Some(Json::Array(items)) => {
            let mut i: usize = 0;
            assert(items@.take(0) =~= Seq::<Json>::empty());
            while i < items.len()
                invariant
                    i <= items.len(),
                    entry_views(entries@) == json_bindings(items@.take(i as int)),
                decreases items.len() - i,
            {
                assert(items@.take(i + 1).drop_last() =~= items@.take(i as int));
                assert(items@.take(i + 1).last() == items@[i as int]);
                push_json_binding(&mut entries, &items[i]);
                i = i + 1;
            }
            assert(items@.take(items.len() as int) =~= items@);
        },
        Some(v) => {
            if let Json::Object(_) = v {
                push_json_binding(&mut entries, v);
                assert(seq![*v].drop_last() =~= Seq::<Json>::empty());
                assert(json_bindings(Seq::<Json>::empty()) =~= Seq::<PortView>::empty());
                assert(json_items(*v) == seq![*v]);
            } else {
                assert(json_items(*v) =~= Seq::<Json>::empty());
            }
        },
        None => {},
    }
    entries
}

/// The bindings of Hyper-V output, given the bindings read from it as JSON:
/// those where there are any, and otherwise its `key: value` reading;
/// `None` where neither has any.
pub open spec fn hyperv_ports(json: Seq<PortView>, text: Seq<char>) -> Option<Seq<PortView>> {
    if json.len() > 0 {
        Some(json)
    } else {
        as_result(hyperv_text_ports(text))
    }
}

/// Reads the Hyper-V bindings of `text`, given its parse as JSON: those of
/// the JSON where there are any, else those of the `key: value` listing.
pub fn hyperv_ports_from(doc: &Option<Json>, text: &str) -> (r: Option<Vec<ForwardedPortEntry>>)
    ensures
        match hyperv_ports(hyperv_json_ports(*doc), text@) {
            Some(s) => r matches Some(v) && entry_views(v@) == s,
            None => r is None,
        },
{
    let json_entries = hyperv_json_entries(doc);
    if json_entries.len() > 0 {
        return Some(json_entries);
    }
    finish(parse_hyperv_text_ports(text))
}

/// Parses forwarded port entries from Hyper-V output: JSON first, then the
/// `key: value` listing.
pub fn parse_hyperv_ports(text: &str) -> (r: Option<Vec<ForwardedPortEntry>>)
    ensures
        match hyperv_ports(hyperv_json_ports(parsed_json(text@)), text@) {
            Some(s) => r matches Some(v) && entry_views(v@) == s,
            None => r is None,
        },
{
    let doc = json_parse(text);
    hyperv_ports_from(&doc, text)
}

} // verus!
