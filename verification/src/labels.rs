//! What the user reads of transfers, files and peers.
use crate::candidates::CandidateKind;
use crate::rounding::{nearest_whole, round_to_double};
use crate::signaling::SignalingRole;
use crate::transfer::{TransferDirection, TransferStatus};
use crate::{paths, rounding, text};
use vstd::prelude::*;

verus! {

pub open spec fn status_words(status: TransferStatus) -> Seq<char> {
    match status {
        TransferStatus::Offered => "等待确认"@,
        TransferStatus::Accepted => "传输中"@,
        TransferStatus::Paused => "已暂停"@,
        TransferStatus::Complete => "已完成"@,
        TransferStatus::Cancelled => "已取消"@,
        TransferStatus::Failed => "失败"@,
    }
}

pub fn transfer_status_label(status: &TransferStatus) -> (r: &'static str)
    ensures
        r@ == status_words(*status),
{
    match status {
        TransferStatus::Offered => "等待确认",
        TransferStatus::Accepted => "传输中",
        TransferStatus::Paused => "已暂停",
        TransferStatus::Complete => "已完成",
        TransferStatus::Cancelled => "已取消",
        TransferStatus::Failed => "失败",
    }
}

pub open spec fn direction_words(direction: TransferDirection) -> Seq<char> {
    match direction {
        TransferDirection::Send => "发送"@,
        TransferDirection::Receive => "接收"@,
    }
}

pub fn direction_label(direction: TransferDirection) -> (r: &'static str)
    ensures
        r@ == direction_words(direction),
{
    match direction {
        TransferDirection::Send => "发送",
        TransferDirection::Receive => "接收",
    }
}

pub open spec fn role_words(role: SignalingRole) -> Seq<char> {
    match role {
        SignalingRole::Host => "host"@,
        SignalingRole::Guest => "guest"@,
    }
}

pub fn role_label(role: &SignalingRole) -> (r: &'static str)
    ensures
        r@ == role_words(*role),
{
    match role {
        SignalingRole::Host => "host",
        SignalingRole::Guest => "guest",
    }
}

/// A number in steps of `unit`, with one digit behind the point.
pub open spec fn with_tenth(value: int, unit: int) -> Seq<char> {
    let tenths = rounding::nearest(10 * value, unit);
    text::decimal_text((tenths / 10) as nat) + "."@ + text::decimal_text((tenths % 10) as nat)
}

/// A number of bytes for reading: whole bytes below 1024, else kibi-, mebi- or gibibytes with one
/// digit behind the point. The number is rounded to 53 bits first.
pub open spec fn bytes_text(bytes: u64) -> Seq<char> {
    let v = rounding::rounded(bytes as int);
    if v < 1024 {
        text::decimal_text(bytes as nat) + " B"@
    } else if v < 1048576 {
        with_tenth(v, 1024) + " KiB"@
    } else if v < 1073741824 {
        with_tenth(v, 1048576) + " MiB"@
    } else {
        with_tenth(v, 1073741824) + " GiB"@
    }
}

fn tenth_text(value: u128, unit: u128) -> (r: String)
    requires
        value <= 0x2_0000_0000_0000_0000,
        1024 <= unit <= 1073741824,
    ensures
        r@ == with_tenth(value as int, unit as int),
{
    let tenths: u128 = nearest_whole(10 * value, unit);
    proof {
        assert(tenths <= 10 * value + 1) by (nonlinear_arith)
            requires
                2 * (tenths * unit) <= 2 * (10 * value) + unit,
                unit >= 1024,
                tenths >= 0,
                value >= 0,
        ;
        assert(tenths * 1024 <= tenths * unit) by (nonlinear_arith)
            requires
                unit >= 1024,
                tenths >= 0,
        ;
    }
    let whole = text::decimal((tenths / 10) as u64);
    let tenth = text::decimal((tenths % 10) as u64);
    text::concat3(whole.as_str(), ".", tenth.as_str())
}

pub fn format_bytes(bytes: u64) -> (r: String)
    ensures
        r@ == bytes_text(bytes),
{
    let v: u128 = round_to_double(bytes as u128);
    proof {
        assert(0x20_0000_0000_0000 * v <= 0x20_0000_0000_0001 * bytes);
    }
    if v < 1024 {
        let n = text::decimal(bytes);
        text::concat(n.as_str(), " B")
    } else if v < 1048576 {
        let n = tenth_text(v, 1024);
        text::concat(n.as_str(), " KiB")
    } else if v < 1073741824 {
        let n = tenth_text(v, 1048576);
        text::concat(n.as_str(), " MiB")
    } else {
        let n = tenth_text(v, 1073741824);
        text::concat(n.as_str(), " GiB")
    }
}

/// The name by which a file is spoken of, given the last component of its path: that one, or else
/// the whole path.
pub open spec fn spoken_name(path: Seq<char>, name: Option<Seq<char>>) -> Seq<char> {
    if name is Some && name->0.len() > 0 {
        name->0
    } else {
        path
    }
}

pub fn name_or_path(path: &str, name: Option<String>) -> (r: String)
    ensures
        r@ == spoken_name(path@, text::opt_text(name)),
{
    match name {
        Some(name) => {
            if name.as_str().is_empty() {
                path.to_owned()
            } else {
                name
            }
        },
        None => path.to_owned(),
    }
}

pub fn display_file_name(path: &str) -> (r: String)
    ensures
        paths::is_portable(path@) ==> r@ == spoken_name(path@, paths::final_component(path@)),
        exists|name: Option<Seq<char>>|
            paths::names_the_file(path@, name) && r@ == #[trigger] spoken_name(path@, name),
{
    let name = paths::file_name(path);
    let ghost found = text::opt_text(name);
    let r = name_or_path(path, name);
    assert(r@ == spoken_name(path@, found));
    r
}

pub open spec fn kind_words(kind: CandidateKind) -> Seq<char> {
    match kind {
        CandidateKind::Local => "local"@,
        CandidateKind::ServerReflexive => "server-reflexive"@,
    }
}

/// Candidates for reading, each an address as text and its kind.
pub open spec fn candidate_list(candidates: Seq<(Seq<char>, CandidateKind)>) -> Seq<char>
    decreases candidates.len(),
{
    if candidates.len() == 0 {
        Seq::empty()
    } else {
        let (address, kind) = candidates.last();
        let item = address + " ("@ + kind_words(kind) + ")"@;
        if candidates.len() == 1 {
            item
        } else {
            candidate_list(candidates.drop_last()) + ", "@ + item
        }
    }
}

/// How a peer can be reached, for reading.
pub open spec fn connect_info_text(
    label: Seq<char>,
    role: SignalingRole,
    candidates: Seq<(Seq<char>, CandidateKind)>,
) -> Seq<char> {
    label + " ["@ + role_words(role) + "]："@ + if candidates.len() == 0 {
        "无"@
    } else {
        candidate_list(candidates)
    }
}

pub open spec fn addressed(candidates: Seq<(String, CandidateKind)>) -> Seq<
    (Seq<char>, CandidateKind),
> {
    candidates.map_values(|c: (String, CandidateKind)| (c.0@, c.1))
}

pub fn format_connect_info(
    label: &str,
    role: SignalingRole,
    candidates: &Vec<(String, CandidateKind)>,
) -> (r: String)
    ensures
        r@ == connect_info_text(label@, role, addressed(candidates@)),
{
    let ghost all = addressed(candidates@);
    let mut r = text::concat4(label, " [", role_label(&role), "]：");
    if candidates.len() == 0 {
        r.append("无");
        return r;
    }
    let mut list = String::new();
    let mut i: usize = 0;
    assert(list@ =~= candidate_list(all.take(0)));
    while i < candidates.len()
        invariant
            all == addressed(candidates@),
            i <= candidates@.len(),
            list@ == candidate_list(all.take(i as int)),
        decreases candidates@.len() - i,
    {
        assert(all.take(i + 1).drop_last() == all.take(i as int));
        assert(all.take(i + 1).last() == all[i as int]);
        let kind = match candidates[i].1 {
            CandidateKind::Local => "local",
            CandidateKind::ServerReflexive => "server-reflexive",
        };
        let item = text::concat4(candidates[i].0.as_str(), " (", kind, ")");
        if i > 0 {
            list.append(", ");
            list.append(item.as_str());
        } else {
            list = item;
        }
        i += 1;
    }
    assert(all.take(i as int) == all);
    r.append(list.as_str());
    r
}

/// Words that differ are told apart: each status, direction, role and kind has words of its own.
pub proof fn words_tell_apart(
    a: TransferStatus,
    b: TransferStatus,
    c: CandidateKind,
    d: CandidateKind,
    e: SignalingRole,
    f: SignalingRole,
    g: TransferDirection,
    h: TransferDirection,
)
    ensures
        status_words(a) == status_words(b) <==> a == b,
        kind_words(c) == kind_words(d) <==> c == d,
        role_words(e) == role_words(f) <==> e == f,
        direction_words(g) == direction_words(h) <==> g == h,
{
    reveal_strlit("等待确认");
    reveal_strlit("传输中");
    reveal_strlit("已暂停");
    reveal_strlit("已完成");
    reveal_strlit("已取消");
    reveal_strlit("失败");
    reveal_strlit("local");
    reveal_strlit("server-reflexive");
    reveal_strlit("host");
    reveal_strlit("guest");
    reveal_strlit("发送");
    reveal_strlit("接收");
    assert("等待确认"@.len() == 4 && "失败"@.len() == 2 && "传输中"@.len() == 3);
    assert("已暂停"@.len() == 3 && "已完成"@.len() == 3 && "已取消"@.len() == 3);
    assert("传输中"@[0] != "已暂停"@[0]);
    assert("传输中"@[0] != "已完成"@[0]);
    assert("传输中"@[0] != "已取消"@[0]);
    assert("已暂停"@[1] != "已完成"@[1]);
    assert("已暂停"@[1] != "已取消"@[1]);
    assert("已完成"@[1] != "已取消"@[1]);
    assert("local"@.len() != "server-reflexive"@.len());
    assert("host"@.len() != "guest"@.len());
    assert("发送"@[0] != "接收"@[0]);
}

/// The unit in which so many bytes are told, and how it is written.
pub open spec fn unit_of(bytes: u64) -> (int, Seq<char>) {
    if bytes < 1048576 {
        (1024, " KiB"@)
    } else if bytes < 1073741824 {
        (1048576, " MiB"@)
    } else {
        (1073741824, " GiB"@)
    }
}

/// A number of bytes is told exactly below one kibibyte. Above it is told in the greatest of the
/// three units that it fills, in whole tenths of it and off by half of a tenth at most.
pub proof fn sizes_are_told_to_the_tenth(bytes: u64) -> (tenths: nat)
    requires
        bytes < 0x20_0000_0000_0000,
    ensures
        bytes < 1024 ==> bytes_text(bytes) == text::decimal_text(bytes as nat) + " B"@,
        bytes >= 1024 ==> {
            let (unit, name) = unit_of(bytes);
            &&& bytes_text(bytes) == text::decimal_text(tenths / 10) + "."@ + text::decimal_text(
                tenths % 10,
            ) + name
            &&& 2 * (tenths * unit - 10 * bytes) <= unit
            &&& 2 * (10 * bytes - tenths * unit) <= unit
        },
{
    rounding::rounding_keeps_the_leading_bits(bytes as int);
    let (unit, name) = unit_of(bytes);
    let tenths = rounding::nearest(10 * bytes, unit);
    rounding::nearest_is_off_by_half_at_most(10 * bytes, unit);
    assert(tenths >= 0);
    tenths as nat
}

/// A file is spoken of by its name, where it has one, and else by its path.
pub proof fn files_are_spoken_of_by_name(path: Seq<char>, name: Seq<char>)
    ensures
        name.len() > 0 ==> spoken_name(path, Some(name)) == name,
        spoken_name(path, None) == path,
        spoken_name(path, Some(Seq::empty())) == path,
{
}

/// Candidates are listed one behind the other, each with its kind, and none is left out.
pub proof fn every_candidate_is_listed(
    candidates: Seq<(Seq<char>, CandidateKind)>,
    address: Seq<char>,
    label: Seq<char>,
    role: SignalingRole,
)
    ensures
        ({
            let local = (address, CandidateKind::Local);
            let seen = (address, CandidateKind::ServerReflexive);
            &&& candidate_list(seq![local]) == address + " (local)"@
            &&& candidate_list(seq![seen]) == address + " (server-reflexive)"@
            &&& candidates.len() > 0 ==> candidate_list(candidates.push(local)) == candidate_list(
                candidates,
            ) + ", "@ + (address + " (local)"@)
            &&& candidates.len() > 0 ==> candidate_list(candidates.push(seen)) == candidate_list(
                candidates,
            ) + ", "@ + (address + " (server-reflexive)"@)
            &&& candidates.len() > 0 ==> connect_info_text(label, role, candidates) == label + " ["@
                + role_words(role) + "]："@ + candidate_list(candidates)
            &&& label.is_prefix_of(connect_info_text(label, role, candidates))
        }),
{
    reveal_strlit("local");
    reveal_strlit("server-reflexive");
    reveal_strlit(" (");
    reveal_strlit(")");
    reveal_strlit(" (local)");
    reveal_strlit(" (server-reflexive)");
    let local = (address, CandidateKind::Local);
    let seen = (address, CandidateKind::ServerReflexive);
    assert(address + " ("@ + "local"@ + ")"@ =~= address + " (local)"@);
    assert(address + " ("@ + "server-reflexive"@ + ")"@ =~= address + " (server-reflexive)"@);
    assert(candidates.push(local).drop_last() =~= candidates);
    assert(candidates.push(seen).drop_last() =~= candidates);
    let all = connect_info_text(label, role, candidates);
    assert(all.subrange(0, label.len() as int) =~= label);
}

}
