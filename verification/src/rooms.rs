//! Rooms: their codes, and the addresses at which the signaling server keeps them.
use crate::text;
use vstd::prelude::*;

verus! {

/// The digits of a text, in their order.
pub open spec fn digits(s: Seq<char>) -> Seq<char>
    decreases s.len(),
{
    if s.len() == 0 {
        s
    } else if text::is_digit(s.last()) {
        digits(s.drop_last()).push(s.last())
    } else {
        digits(s.drop_last())
    }
}

/// A room code is four digits.
pub open spec fn is_room(s: Seq<char>) -> bool {
    s.len() == 4 && forall|i: int| 0 <= i < s.len() ==> text::is_digit(#[trigger] s[i])
}

/// What is kept of a room code as it is typed: its first four digits.
pub open spec fn normalized(s: Seq<char>) -> Seq<char> {
    if digits(s).len() < 4 {
        digits(s)
    } else {
        digits(s).take(4)
    }
}

pub fn normalize_room_input(value: &str) -> (r: String)
    ensures
        r@ == normalized(value@),
{
    let v = text::chars_of(value);
    let mut kept: Vec<char> = Vec::new();
    let mut i: usize = 0;
    assert(kept@ =~= digits(v@.take(0)));
    while i < v.len()
        invariant
            i <= v@.len(),
            kept@ == digits(v@.take(i as int)),
        decreases v@.len() - i,
    {
        assert(v@.take(i + 1).drop_last() == v@.take(i as int));
        assert(v@.take(i + 1).last() == v@[i as int]);
        if text::is_ascii_digit(v[i]) {
            kept.push(v[i]);
        }
        i += 1;
    }
    assert(v@.take(i as int) == v@);
    let end: usize = if kept.len() < 4 {
        kept.len()
    } else {
        4
    };
    assert(kept@.subrange(0, end as int) =~= normalized(value@));
    text::text_of(&kept[0..end])
}

pub fn normalize_room_input_in_place(value: &mut String)
    ensures
        final(value)@ == normalized(old(value)@),
{
    let kept = normalize_room_input(value.as_str());
    if !text::same_text(value.as_str(), kept.as_str()) {
        *value = kept;
    }
}

pub fn is_valid_room(room: &str) -> (r: bool)
    ensures
        r == is_room(room@),
{
    let v = text::chars_of(room);
    if v.len() != 4 {
        return false;
    }
    let mut i: usize = 0;
    while i < v.len()
        invariant
            v@ == room@,
            i <= v@.len(),
            forall|j: int| 0 <= j < i ==> text::is_digit(#[trigger] v@[j]),
        decreases v@.len() - i,
    {
        if !text::is_ascii_digit(v[i]) {
            assert(!text::is_digit(v@[i as int]));
            return false;
        }
        i += 1;
    }
    true
}

proof fn lemma_digits(s: Seq<char>)
    ensures
        forall|i: int| 0 <= i < digits(s).len() ==> text::is_digit(#[trigger] digits(s)[i]),
        (forall|i: int| 0 <= i < s.len() ==> text::is_digit(#[trigger] s[i])) ==> digits(s) == s,
    decreases s.len(),
{
    if s.len() > 0 {
        let front = digits(s.drop_last());
        lemma_digits(s.drop_last());
        assert forall|i: int| 0 <= i < digits(s).len() implies text::is_digit(
            #[trigger] digits(s)[i],
        ) by {
            if i < front.len() {
                assert(digits(s)[i] == front[i]);
            }
        }
        if forall|i: int| 0 <= i < s.len() ==> text::is_digit(#[trigger] s[i]) {
            assert forall|i: int| 0 <= i < s.drop_last().len() implies text::is_digit(
                #[trigger] s.drop_last()[i],
            ) by {
                assert(text::is_digit(s[i]));
            }
            assert(text::is_digit(s[s.len() - 1]));
            assert(s.drop_last().push(s.last()) =~= s);
        }
    }
}

/// What is kept of a typed code is at most four digits and stays as it is when it is typed again; a
/// room code is kept whole, and what is kept is a room code where four digits were typed.
pub proof fn kept_input_is_stable(s: Seq<char>)
    ensures
        normalized(s).len() <= 4,
        normalized(normalized(s)) == normalized(s),
        is_room(s) ==> normalized(s) == s,
        is_room(normalized(s)) <==> digits(s).len() >= 4,
{
    lemma_digits(s);
    let n = normalized(s);
    assert forall|i: int| 0 <= i < n.len() implies text::is_digit(#[trigger] n[i]) by {
        assert(n[i] == digits(s)[i]);
    }
    lemma_digits(n);
    assert(n.len() == 4 ==> n.take(4) =~= n);
    if is_room(s) {
        assert(s.take(4) =~= s);
    }
}

/// Is the server on this machine, so that the connection need not be encrypted?
pub open spec fn is_local(server: Seq<char>) -> bool {
    ||| "localhost"@.is_prefix_of(server)
    ||| "127."@.is_prefix_of(server)
    ||| "[::1]"@.is_prefix_of(server)
    ||| "::1"@.is_prefix_of(server)
}

pub fn is_local_server(server: &str) -> (r: bool)
    ensures
        r == is_local(server@),
{
    text::starts_with(server, "localhost") || text::starts_with(server, "127.")
        || text::starts_with(server, "[::1]") || text::starts_with(server, "::1")
}

/// The address of a server as it is typed, without white space around it and slashes behind it.
pub open spec fn bare_server(server: Seq<char>) -> Seq<char> {
    text::slash_trimmed_end(text::white_trimmed(server))
}

/// The web socket address of a server. A web address keeps its encryption; a bare name is encrypted
/// unless it is on this machine.
pub open spec fn web_socket_base(server: Seq<char>) -> Seq<char> {
    if "wss://"@.is_prefix_of(server) || "ws://"@.is_prefix_of(server) {
        server
    } else if "https://"@.is_prefix_of(server) {
        "wss://"@ + server.skip("https://"@.len() as int)
    } else if "http://"@.is_prefix_of(server) {
        "ws://"@ + server.skip("http://"@.len() as int)
    } else if is_local(server) {
        "ws"@ + "://"@ + server
    } else {
        "wss"@ + "://"@ + server
    }
}

pub open spec fn base_of(server: Seq<char>) -> Result<Seq<char>, Seq<char>> {
    if bare_server(server).len() == 0 {
        Err("信令服务器地址不能为空"@)
    } else {
        Ok(web_socket_base(bare_server(server)))
    }
}

pub open spec fn result_text(r: Result<String, String>) -> Result<Seq<char>, Seq<char>> {
    match r {
        Ok(s) => Ok(s@),
        Err(e) => Err(e@),
    }
}

pub fn signaling_base(server: &str) -> (r: Result<String, String>)
    ensures
        result_text(r) == base_of(server@),
{
    let trimmed = text::trim(server);
    let bare = text::trim_end_slashes(trimmed.as_str());
    let server = bare.as_str();
    if server.is_empty() {
        return Err("信令服务器地址不能为空".to_owned());
    }
    if text::starts_with(server, "wss://") || text::starts_with(server, "ws://") {
        return Ok(bare);
    }
    if let Some(host) = text::strip_prefix(server, "https://") {
        return Ok(text::concat("wss://", host.as_str()));
    }
    if let Some(host) = text::strip_prefix(server, "http://") {
        return Ok(text::concat("ws://", host.as_str()));
    }
    let scheme = if is_local_server(server) {
        "ws"
    } else {
        "wss"
    };
    Ok(text::concat3(scheme, "://", server))
}

/// The address of a room below a server; an address that already names a room is kept.
pub open spec fn room_address(base: Seq<char>, room: Seq<char>) -> Seq<char> {
    if text::occurs(base, "/rooms/"@) {
        base
    } else {
        base + "/rooms/"@ + room
    }
}

pub fn append_room_path(base: &str, room: &str) -> (r: String)
    ensures
        r@ == room_address(base@, room@),
{
    if text::contains(base, "/rooms/") {
        base.to_owned()
    } else {
        text::concat3(base, "/rooms/", room)
    }
}

/// A room code as it is typed, without white space and slashes around it.
pub open spec fn bare_room(room: Seq<char>) -> Seq<char> {
    text::slash_trimmed_start(text::slash_trimmed_end(text::white_trimmed(room)))
}

/// The address at which a guest enters the room.
pub open spec fn guest_address(server: Seq<char>, room: Seq<char>) -> Result<Seq<char>, Seq<char>> {
    if !is_room(bare_room(room)) {
        Err("房间号需要 4 位数字"@)
    } else {
        match base_of(server) {
            Err(e) => Err(e),
            Ok(base) => Ok(room_address(base, bare_room(room))),
        }
    }
}

pub fn build_signaling_url(server: &str, room: &str) -> (r: Result<String, String>)
    ensures
        result_text(r) == guest_address(server@, room@),
{
    let a = text::trim(room);
    let b = text::trim_end_slashes(a.as_str());
    let room = text::trim_start_slashes(b.as_str());
    if !is_valid_room(room.as_str()) {
        return Err("房间号需要 4 位数字".to_owned());
    }
    match signaling_base(server) {
        Err(e) => Err(e),
        Ok(base) => Ok(append_room_path(base.as_str(), room.as_str())),
    }
}

/// The address at which a host opens a room; the server gives it a code.
pub open spec fn host_address(server: Seq<char>) -> Result<Seq<char>, Seq<char>> {
    match base_of(server) {
        Err(e) => Err(e),
        Ok(base) => Ok(room_address(base, "new"@)),
    }
}

pub fn build_host_signaling_url(server: &str) -> (r: Result<String, String>)
    ensures
        result_text(r) == host_address(server@),
{
    match signaling_base(server) {
        Err(e) => Err(e),
        Ok(base) => Ok(append_room_path(base.as_str(), "new")),
    }
}

/// Whatever is typed for a server, the address that comes out is one of a web socket and names a
/// room.
pub proof fn addresses_are_web_sockets_with_a_room(server: Seq<char>, room: Seq<char>)
    ensures
        ({
            let a = guest_address(server, room);
            a is Ok ==> is_web_socket(a->Ok_0) && text::occurs(a->Ok_0, "/rooms/"@)
        }),
        ({
            let a = host_address(server);
            a is Ok ==> is_web_socket(a->Ok_0) && text::occurs(a->Ok_0, "/rooms/"@)
        }),
        host_address(server) is Ok <==> bare_server(server).len() > 0,
        guest_address(server, room) is Ok <==> bare_server(server).len() > 0 && is_room(
            bare_room(room),
        ),
{
    if bare_server(server).len() > 0 {
        let base = web_socket_base(bare_server(server));
        lemma_base_is_web_socket(bare_server(server));
        lemma_room_address(base, "new"@);
        lemma_room_address(base, bare_room(room));
    }
}

pub open spec fn is_web_socket(address: Seq<char>) -> bool {
    "wss://"@.is_prefix_of(address) || "ws://"@.is_prefix_of(address)
}

proof fn lemma_prefix(head: Seq<char>, tail: Seq<char>)
    ensures
        head.is_prefix_of(head + tail),
{
    assert((head + tail).subrange(0, head.len() as int) =~= head);
}

proof fn lemma_base_is_web_socket(server: Seq<char>)
    ensures
        is_web_socket(web_socket_base(server)),
{
    reveal_strlit("ws");
    reveal_strlit("wss");
    reveal_strlit("://");
    reveal_strlit("ws://");
    reveal_strlit("wss://");
    lemma_prefix("wss://"@, server.skip("https://"@.len() as int));
    lemma_prefix("ws://"@, server.skip("http://"@.len() as int));
    assert("ws"@ + "://"@ =~= "ws://"@);
    assert("wss"@ + "://"@ =~= "wss://"@);
    lemma_prefix("ws://"@, server);
    lemma_prefix("wss://"@, server);
}

proof fn lemma_room_address(base: Seq<char>, room: Seq<char>)
    requires
        is_web_socket(base),
    ensures
        is_web_socket(room_address(base, room)),
        text::occurs(room_address(base, room), "/rooms/"@),
{
    let a = room_address(base, room);
    if !text::occurs(base, "/rooms/"@) {
        assert(text::stands_at(a, "/rooms/"@, base.len() as int)) by {
            let start = base.len() as int;
            assert(a.subrange(start, start + "/rooms/"@.len()) =~= "/rooms/"@);
        }
        lemma_longer_prefix("wss://"@, base, "/rooms/"@ + room);
        lemma_longer_prefix("ws://"@, base, "/rooms/"@ + room);
        assert(base + ("/rooms/"@ + room) =~= a);
    }
}

proof fn lemma_longer_prefix(head: Seq<char>, s: Seq<char>, tail: Seq<char>)
    ensures
        head.is_prefix_of(s) ==> head.is_prefix_of(s + tail),
{
    if head.is_prefix_of(s) {
        assert((s + tail).subrange(0, head.len() as int) =~= s.subrange(0, head.len() as int));
    }
}

/// The digits of two texts, one behind the other, are those of the first and then those of the
/// second.
pub proof fn digits_are_kept_in_order(a: Seq<char>, b: Seq<char>, c: char)
    ensures
        digits(a + b) == digits(a) + digits(b),
        text::is_digit(c) ==> digits(seq![c]) == seq![c],
        !text::is_digit(c) ==> digits(seq![c]).len() == 0,
        text::is_digit(c) <==> '0' <= c <= '9',
    decreases b.len(),
{
    assert(seq![c].drop_last() =~= Seq::empty());
    assert(digits(Seq::empty()) == Seq::<char>::empty());
    if text::is_digit(c) {
        assert(digits(seq![c]) =~= seq![c]);
    }
    if b.len() == 0 {
        assert(a + b =~= a);
        assert(digits(a) + digits(b) =~= digits(a));
    } else {
        assert((a + b).drop_last() =~= a + b.drop_last());
        digits_are_kept_in_order(a, b.drop_last(), c);
        if text::is_digit(b.last()) {
            assert(digits(a) + digits(b) =~= (digits(a) + digits(b.drop_last())).push(b.last()));
        }
    }
}

/// What is kept of a typed code begins what was typed: its digits, as many as a code has.
pub proof fn a_typed_code_keeps_its_first_digits(s: Seq<char>)
    ensures
        normalized(s).is_prefix_of(digits(s)),
        normalized(s).len() == 4 || normalized(s) == digits(s),
{
}

/// A web address leads to the web socket of the same host, encrypted where it was; an address of a
/// web socket stays.
pub proof fn web_addresses_keep_their_encryption(host: Seq<char>)
    ensures
        web_socket_base("https://"@ + host) == "wss://"@ + host,
        web_socket_base("http://"@ + host) == "ws://"@ + host,
        web_socket_base("wss://"@ + host) == "wss://"@ + host,
        web_socket_base("ws://"@ + host) == "ws://"@ + host,
{
    reveal_strlit("ws://");
    reveal_strlit("wss://");
    reveal_strlit("http://");
    reveal_strlit("https://");
    lemma_prefix("https://"@, host);
    lemma_differ("wss://"@, "https://"@, host, 0);
    lemma_differ("ws://"@, "https://"@, host, 0);
    lemma_prefix("http://"@, host);
    lemma_differ("wss://"@, "http://"@, host, 0);
    lemma_differ("ws://"@, "http://"@, host, 0);
    lemma_differ("https://"@, "http://"@, host, 4);
    lemma_prefix("wss://"@, host);
    lemma_prefix("ws://"@, host);
    assert(("https://"@ + host).skip("https://"@.len() as int) =~= host);
    assert(("http://"@ + host).skip("http://"@.len() as int) =~= host);
}

/// A name of this machine leads to a web socket that is not encrypted.
pub proof fn localhost_is_not_encrypted(host: Seq<char>)
    ensures
        web_socket_base("localhost"@ + host) == "ws://localhost"@ + host,
{
    reveal_strlit("ws");
    reveal_strlit("://");
    reveal_strlit("ws://");
    reveal_strlit("wss://");
    reveal_strlit("http://");
    reveal_strlit("https://");
    reveal_strlit("localhost");
    reveal_strlit("ws://localhost");
    lemma_prefix("localhost"@, host);
    lemma_differ("wss://"@, "localhost"@, host, 0);
    lemma_differ("ws://"@, "localhost"@, host, 0);
    lemma_differ("https://"@, "localhost"@, host, 0);
    lemma_differ("http://"@, "localhost"@, host, 0);
    assert("ws"@ + "://"@ + ("localhost"@ + host) =~= "ws://localhost"@ + host);
}

/// An address of this machine leads to a web socket that is not encrypted.
pub proof fn loopback_is_not_encrypted(host: Seq<char>)
    ensures
        web_socket_base("127."@ + host) == "ws://127."@ + host,
{
    reveal_strlit("ws");
    reveal_strlit("://");
    reveal_strlit("ws://");
    reveal_strlit("wss://");
    reveal_strlit("http://");
    reveal_strlit("https://");
    reveal_strlit("127.");
    reveal_strlit("ws://127.");
    lemma_prefix("127."@, host);
    lemma_differ("wss://"@, "127."@, host, 0);
    lemma_differ("ws://"@, "127."@, host, 0);
    lemma_differ("https://"@, "127."@, host, 0);
    lemma_differ("http://"@, "127."@, host, 0);
    assert("ws"@ + "://"@ + ("127."@ + host) =~= "ws://127."@ + host);
}

/// The long address of this machine in brackets leads to a web socket that is not encrypted.
pub proof fn bracketed_loopback_is_not_encrypted(host: Seq<char>)
    ensures
        web_socket_base("[::1]"@ + host) == "ws://[::1]"@ + host,
{
    reveal_strlit("ws");
    reveal_strlit("://");
    reveal_strlit("ws://");
    reveal_strlit("wss://");
    reveal_strlit("http://");
    reveal_strlit("https://");
    reveal_strlit("[::1]");
    reveal_strlit("ws://[::1]");
    lemma_prefix("[::1]"@, host);
    lemma_differ("wss://"@, "[::1]"@, host, 0);
    lemma_differ("ws://"@, "[::1]"@, host, 0);
    lemma_differ("https://"@, "[::1]"@, host, 0);
    lemma_differ("http://"@, "[::1]"@, host, 0);
    assert("ws"@ + "://"@ + ("[::1]"@ + host) =~= "ws://[::1]"@ + host);
}

/// The long address of this machine leads to a web socket that is not encrypted.
pub proof fn bare_loopback_is_not_encrypted(host: Seq<char>)
    ensures
        web_socket_base("::1"@ + host) == "ws://::1"@ + host,
{
    reveal_strlit("ws");
    reveal_strlit("://");
    reveal_strlit("ws://");
    reveal_strlit("wss://");
    reveal_strlit("http://");
    reveal_strlit("https://");
    reveal_strlit("::1");
    reveal_strlit("ws://::1");
    lemma_prefix("::1"@, host);
    lemma_differ("wss://"@, "::1"@, host, 0);
    lemma_differ("ws://"@, "::1"@, host, 0);
    lemma_differ("https://"@, "::1"@, host, 0);
    lemma_differ("http://"@, "::1"@, host, 0);
    assert("ws"@ + "://"@ + ("::1"@ + host) =~= "ws://::1"@ + host);
}

/// Any other name leads to a web socket that is encrypted.
pub proof fn other_names_are_encrypted(host: Seq<char>)
    requires
        host.len() > 0,
        host[0] != 'w' && host[0] != 'h' && host[0] != 'l',
        host[0] != '1' && host[0] != '[' && host[0] != ':',
    ensures
        web_socket_base(host) == "wss://"@ + host,
{
    reveal_strlit("wss");
    reveal_strlit("://");
    reveal_strlit("ws://");
    lemma_other_start("ws://"@, host);
    reveal_strlit("wss://");
    lemma_other_start("wss://"@, host);
    reveal_strlit("http://");
    lemma_other_start("http://"@, host);
    reveal_strlit("https://");
    lemma_other_start("https://"@, host);
    reveal_strlit("localhost");
    lemma_other_start("localhost"@, host);
    reveal_strlit("127.");
    lemma_other_start("127."@, host);
    reveal_strlit("[::1]");
    lemma_other_start("[::1]"@, host);
    reveal_strlit("::1");
    lemma_other_start("::1"@, host);
    assert("wss"@ + "://"@ + host =~= "wss://"@ + host);
}

proof fn lemma_other_start(head: Seq<char>, s: Seq<char>)
    requires
        head.len() > 0,
        s.len() > 0,
        head[0] != s[0],
    ensures
        !head.is_prefix_of(s),
{
    if head.is_prefix_of(s) {
        assert(s.subrange(0, head.len() as int)[0] == s[0]);
    }
}

proof fn lemma_differ(other: Seq<char>, head: Seq<char>, tail: Seq<char>, i: int)
    requires
        0 <= i < other.len(),
        i < head.len(),
        other[i] != head[i],
    ensures
        !other.is_prefix_of(head + tail),
{
    if other.is_prefix_of(head + tail) {
        assert((head + tail).subrange(0, other.len() as int)[i] == head[i]);
    }
}

/// The room stands at the end of the address, below the server, unless the server was given with a
/// room already; the host asks for a new one.
pub proof fn the_room_ends_the_address(server: Seq<char>, room: Seq<char>)
    requires
        bare_server(server).len() > 0,
        !text::occurs(web_socket_base(bare_server(server)), "/rooms/"@),
    ensures
        ({
            let base = web_socket_base(bare_server(server));
            &&& host_address(server) == Ok::<Seq<char>, Seq<char>>(base + "/rooms/new"@)
            &&& is_room(room) ==> guest_address(server, room) == Ok::<Seq<char>, Seq<char>>(
                base + "/rooms/"@ + room,
            )
        }),
{
    let base = web_socket_base(bare_server(server));
    reveal_strlit("/rooms/");
    reveal_strlit("new");
    reveal_strlit("/rooms/new");
    assert(base + "/rooms/"@ + "new"@ =~= base + "/rooms/new"@);
    if is_room(room) {
        assert(text::is_digit(room[0]) && text::is_digit(room[3]));
        let none = Seq::<char>::empty();
        text::white_space_around_a_text_is_dropped(none, room, none);
        assert(none + room + none =~= room);
        text::slashes_are_dropped(none, room);
        assert(none + room =~= room);
        assert(room + none =~= room);
    }
}

/// White space around a server's name and slashes behind it do not matter.
pub proof fn a_server_is_known_by_its_name(server: Seq<char>, slashes: Seq<char>)
    requires
        server.len() > 0,
        !text::is_white(server[0]),
        server.last() != '/',
        !text::is_white(server.last()),
        text::all_of(slashes, |c: char| c == '/'),
    ensures
        bare_server("  "@ + (server + slashes) + " "@) == server,
        base_of(server + slashes) == base_of(server),
{
    reveal_strlit("  ");
    reveal_strlit(" ");
    let all = server + slashes;
    let none = Seq::<char>::empty();
    if slashes.len() > 0 {
        assert(slashes[slashes.len() - 1] == '/');
        assert(all.last() == '/');
    } else {
        assert(all =~= server);
    }
    assert(all[0] == server[0]);
    text::white_space_around_a_text_is_dropped("  "@, all, " "@);
    text::white_space_around_a_text_is_dropped(none, all, none);
    text::white_space_around_a_text_is_dropped(none, server, none);
    assert(none + all + none =~= all);
    assert(none + server + none =~= server);
    text::slashes_are_dropped(slashes, server);
    text::slashes_are_dropped(none, server);
    assert(server + none =~= server);
}

}
