//! Who may call the API: pages of this machine on its own ports.
use vstd::prelude::*;

use crate::decimal;
use crate::error;
use crate::error::{ApiError, Refusal};
use crate::text;
use crate::types;

verus! {

/// The port that the API is served on by default.
pub const DEFAULT_API_PORT: u16 = 3877;

/// The port that the interface is served on by default.
pub const DEFAULT_UI_PORT: u16 = 5173;

// ---- ports ---------------------------------------------------------------------

/// The port that `s` names: digits, perhaps after a plus sign, up to 65535.
pub open spec fn port_named(s: Seq<char>) -> Option<u16> {
    let d = if s.len() > 0 && s[0] == '+' {
        s.skip(1)
    } else {
        s
    };
    if d.len() > 0 && decimal::all_digits(d) && decimal::number(d) <= 65535 {
        Some(decimal::number(d) as u16)
    } else {
        None
    }
}

/// The port that the characters from `from` on name.
fn port_in(v: &[char], from: usize) -> (r: Option<u16>)
    requires
        from <= v@.len(),
    ensures
        r == port_named(v@.skip(from as int)),
{
    let ghost s = v@.skip(from as int);
    let start: usize = if from < v.len() && v[from] == '+' { from + 1 } else { from };
    let ghost d = v@.skip(start as int);
    proof {
        if start > from {
            assert(s.skip(1) =~= d);
        }
    }
    if start == v.len() {
        return None;
    }
    let mut value: u32 = 0;
    let mut large: bool = false;
    let mut i: usize = start;
    assert(d.take(0) =~= Seq::<char>::empty());
    while i < v.len()
        invariant
            start <= i <= v@.len(),
            d == v@.skip(start as int),
            s == v@.skip(from as int),
            d == (if s.len() > 0 && s[0] == '+' {
                s.skip(1)
            } else {
                s
            }),
            decimal::all_digits(d.take(i - start)),
            large ==> decimal::number(d.take(i - start)) > 65535,
            !large ==> value == decimal::number(d.take(i - start)) && value <= 65535,
        decreases v@.len() - i,
    {
        let c: char = v[i];
        let ghost t = d.take(i - start + 1);
        proof {
            assert(t.drop_last() =~= d.take(i - start));
            assert(t.last() == c);
            assert(d[i - start] == c);
        }
        if !('0' <= c && c <= '9') {
            proof {
                assert(!decimal::all_digits(d));
                assert(port_named(s) is None);
            }
            return None;
        }
        if !large {
            value = value * 10 + (c as u32 - '0' as u32);
            if value > 65535 {
                large = true;
            }
        }
        proof {
            assert forall|k: int| 0 <= k < t.len() implies '0' <= #[trigger] t[k] <= '9' by {
                if k < t.len() - 1 {
                    assert(t[k] == d.take(i - start)[k]);
                }
            }
        }
        i += 1;
    }
    assert(d.take(v@.len() - start) =~= d);
    if large {
        None
    } else {
        Some(value as u16)
    }
}

/// The port that the API is served on, given the address that is set.
pub open spec fn served_on(address: Option<Seq<char>>) -> u16 {
    match address {
        Some(a) => match port_named(text::after_last(a, ':')) {
            Some(p) => p,
            None => DEFAULT_API_PORT,
        },
        None => DEFAULT_API_PORT,
    }
}

/// The port that the interface is served on, given what is set.
pub open spec fn shown_on(setting: Option<Seq<char>>) -> u16 {
    match setting {
        Some(a) => match port_named(a) {
            Some(p) => p,
            None => DEFAULT_UI_PORT,
        },
        None => DEFAULT_UI_PORT,
    }
}

/// The port that an address ends in, or the API's default.
pub fn api_port(address: Option<&str>) -> (r: u16)
    ensures
        r == served_on(
            match address {
                Some(a) => Some(a@),
                None => None,
            },
        ),
{
    match address {
        Some(a) => {
            let v = text::chars_of(a);
            let from: usize = text::after_last_from(&v, ':');
            match port_in(&v, from) {
                Some(p) => p,
                None => DEFAULT_API_PORT,
            }
        },
        None => DEFAULT_API_PORT,
    }
}

/// The port that a setting names, or the interface's default.
pub fn ui_port(setting: Option<&str>) -> (r: u16)
    ensures
        r == shown_on(
            match setting {
                Some(a) => Some(a@),
                None => None,
            },
        ),
{
    match setting {
        Some(a) => {
            let v = text::chars_of(a);
            assert(v@.skip(0) =~= v@);
            match port_in(&v, 0) {
                Some(p) => p,
                None => DEFAULT_UI_PORT,
            }
        },
        None => DEFAULT_UI_PORT,
    }
}

// ---- trusted origins --------------------------------------------------------------

/// `p` put in its place in an ascending list, once.
pub open spec fn inserted(ports: Seq<u16>, p: u16) -> Seq<u16>
    decreases ports.len(),
{
    if ports.len() == 0 {
        seq![p]
    } else if p < ports[0] {
        seq![p] + ports
    } else if p == ports[0] {
        ports
    } else {
        seq![ports[0]] + inserted(ports.skip(1), p)
    }
}

/// The ports that are trusted, ascending, each once.
pub open spec fn trusted_ports(api: u16, ui: u16) -> Seq<u16> {
    inserted(inserted(seq![DEFAULT_API_PORT], api), ui)
}

/// The origin of a host and a port.
pub open spec fn origin(host: Seq<char>, port: u16) -> Seq<char> {
    "http://"@ + host + ":"@ + decimal::digits(port as nat)
}

/// The origins of this machine on the first `n` ports, by each of its names.
pub open spec fn origins_on(ports: Seq<u16>, n: int) -> Seq<Seq<char>>
    decreases n,
{
    if n <= 0 {
        Seq::empty()
    } else {
        origins_on(ports, n - 1) + seq![
            origin("localhost"@, ports[n - 1]),
            origin("127.0.0.1"@, ports[n - 1]),
            origin("[::1]"@, ports[n - 1]),
        ]
    }
}

/// The origins that may call.
pub open spec fn trusted_origins(api: u16, ui: u16) -> Seq<Seq<char>> {
    origins_on(trusted_ports(api, ui), trusted_ports(api, ui).len() as int)
}

/// The origin of a host and a port.
fn origin_of(host: &str, port: u16) -> (s: String)
    ensures
        s@ == origin(host@, port),
{
    let mut s = "http://".to_owned();
    s.append(host);
    s.append(":");
    let n = decimal::decimal(port as u64);
    s.append(&n);
    s
}

proof fn lemma_inserted_after(ports: Seq<u16>, p: u16, i: int)
    requires
        0 <= i <= ports.len(),
        forall|k: int| 0 <= k < i ==> #[trigger] ports[k] < p,
    ensures
        inserted(ports, p) == ports.take(i) + inserted(ports.skip(i), p),
    decreases i,
{
    if i == 0 {
        assert(ports.skip(0) =~= ports);
        assert(inserted(ports, p) =~= ports.take(0) + inserted(ports, p));
    } else {
        let t = ports.skip(1);
        assert forall|k: int| 0 <= k < i - 1 implies #[trigger] t[k] < p by {
            assert(t[k] == ports[k + 1]);
        }
        lemma_inserted_after(t, p, i - 1);
        assert(t.skip(i - 1) =~= ports.skip(i));
        assert(inserted(ports, p) =~= ports.take(i) + inserted(ports.skip(i), p));
    }
}

/// `p` put in its place in an ascending list, once.
fn insert_port(ports: &mut Vec<u16>, p: u16)
    ensures
        final(ports)@ == inserted(old(ports)@, p),
{
    let mut i: usize = 0;
    while i < ports.len() && ports[i] < p
        invariant
            i <= ports@.len(),
            ports@ == old(ports)@,
            forall|k: int| 0 <= k < i ==> #[trigger] ports@[k] < p,
        decreases ports@.len() - i,
    {
        i += 1;
    }
    proof {
        lemma_inserted_after(ports@, p, i as int);
        assert(i < ports@.len() ==> ports@.skip(i as int)[0] == ports@[i as int]);
    }
    if i < ports.len() && ports[i] == p {
        assert(ports@.take(i as int) + ports@.skip(i as int) =~= ports@);
        return;
    }
    ports.insert(i, p);
    proof {
        let was = old(ports)@;
        if i < was.len() {
            assert(ports@ =~= was.take(i as int) + (seq![p] + was.skip(i as int)));
        } else {
            assert(ports@ =~= was.take(i as int) + seq![p]);
        }
    }
}

/// The origins that may call the API, given the ports that the API and the
/// interface are served on.
pub fn trusted_loopback_origins(api: u16, ui: u16) -> (r: Vec<String>)
    ensures
        types::texts(r@) == trusted_origins(api, ui),
{
    let mut ports: Vec<u16> = Vec::new();
    ports.push(DEFAULT_API_PORT);
    assert(ports@ =~= seq![DEFAULT_API_PORT]);
    insert_port(&mut ports, api);
    insert_port(&mut ports, ui);
    let mut r: Vec<String> = Vec::new();
    let mut i: usize = 0;
    assert(types::texts(r@) =~= Seq::<Seq<char>>::empty());
    while i < ports.len()
        invariant
            i <= ports@.len(),
            types::texts(r@) == origins_on(ports@, i as int),
        decreases ports@.len() - i,
    {
        let ghost was = r@;
        r.push(origin_of("localhost", ports[i]));
        r.push(origin_of("127.0.0.1", ports[i]));
        r.push(origin_of("[::1]", ports[i]));
        proof {
            assert(types::texts(r@) =~= types::texts(was) + seq![
                origin("localhost"@, ports@[i as int]),
                origin("127.0.0.1"@, ports@[i as int]),
                origin("[::1]"@, ports@[i as int]),
            ]);
        }
        i += 1;
    }
    r
}

// ---- the guard ----------------------------------------------------------------------

/// A request header: not sent, sent but not readable as text, or its text.
#[derive(Debug, PartialEq, Eq)]
pub enum Header {
    Absent,
    Unreadable,
    Text(String),
}

/// A header that was sent and is none of `allowed`, `before` put in front.
pub open spec fn foreign(h: Header, before: Seq<char>, allowed: Seq<Seq<char>>) -> bool {
    match h {
        Header::Absent => false,
        Header::Unreadable => true,
        Header::Text(t) => !allowed.contains(before + t@),
    }
}

/// Why a call is refused. Only paths of the API are guarded. A page that
/// names another origin is refused; so is a call that reached this machine
/// under another name, which a page may do without naming its origin.
pub open spec fn caller_refusal(
    path: Seq<char>,
    origin_header: Header,
    host_header: Header,
    allowed: Seq<Seq<char>>,
) -> Option<Refusal> {
    if !text::begins(path, "/api/"@) {
        None
    } else if foreign(origin_header, ""@, allowed) {
        Some(
            Refusal {
                status: 403,
                message: "This website is not allowed to access Companion"@,
                hint: "Open the local Companion interface. Remote browser origins are blocked."@,
            },
        )
    } else if foreign(host_header, "http://"@, allowed) {
        Some(
            Refusal {
                status: 403,
                message: "Only local Companion hosts are allowed"@,
                hint:
                    "Use localhost or a loopback address. LAN access requires a future authenticated mode."@,
            },
        )
    } else {
        None
    }
}

/// Whether a header was sent and is none of `allowed`.
fn is_foreign(h: &Header, before: &str, allowed: &[String]) -> (r: bool)
    ensures
        r == foreign(*h, before@, types::texts(allowed@)),
{
    match h {
        Header::Absent => false,
        Header::Unreadable => true,
        Header::Text(t) => {
            let mut wanted = before.to_owned();
            wanted.append(t);
            !types::among(allowed, &wanted)
        },
    }
}

/// Admits a call, or says why it is refused.
pub fn admit_caller(
    path: &str,
    origin_header: &Header,
    host_header: &Header,
    allowed: &[String],
) -> (r: Result<(), ApiError>)
    ensures
        error::refusal_of(r) == caller_refusal(
            path@,
            *origin_header,
            *host_header,
            types::texts(allowed@),
        ),
{
    if !text::starts_with(path, "/api/") {
        return Ok(());
    }
    if is_foreign(origin_header, "", allowed) {
        return Err(
            ApiError::new(
                403,
                "This website is not allowed to access Companion",
                "Open the local Companion interface. Remote browser origins are blocked.",
            ),
        );
    }
    if is_foreign(host_header, "http://", allowed) {
        return Err(
            ApiError::new(
                403,
                "Only local Companion hosts are allowed",
                "Use localhost or a loopback address. LAN access requires a future authenticated mode.",
            ),
        );
    }
    Ok(())
}

proof fn lemma_inserted_members(ports: Seq<u16>, p: u16)
    ensures
        forall|q: u16| #[trigger]
            inserted(ports, p).contains(q) <==> (ports.contains(q) || q == p),
    decreases ports.len(),
{
    let r = inserted(ports, p);
    if ports.len() == 0 {
        assert(r =~= seq![p]);
        assert(r[0] == p);
        assert forall|q: u16| #[trigger] r.contains(q) <==> (ports.contains(q) || q == p) by {}
    } else if p < ports[0] {
        assert forall|q: u16| #[trigger] r.contains(q) <==> (ports.contains(q) || q == p) by {
            assert(r[0] == p);
            if ports.contains(q) {
                let k = choose|k: int| 0 <= k < ports.len() && ports[k] == q;
                assert(r[k + 1] == q);
            }
            if r.contains(q) {
                let k = choose|k: int| 0 <= k < r.len() && r[k] == q;
                if k > 0 {
                    assert(ports[k - 1] == q);
                }
            }
        }
    } else if p == ports[0] {
        assert(ports.contains(p));
    } else {
        let t = ports.skip(1);
        lemma_inserted_members(t, p);
        assert forall|q: u16| #[trigger] r.contains(q) <==> (ports.contains(q) || q == p) by {
            assert(inserted(t, p).contains(q) <==> (t.contains(q) || q == p));
            assert(r[0] == ports[0]);
            if r.contains(q) {
                let k = choose|k: int| 0 <= k < r.len() && r[k] == q;
                if k > 0 {
                    assert(inserted(t, p)[k - 1] == q);
                    assert(inserted(t, p).contains(q));
                    if t.contains(q) {
                        let j = choose|j: int| 0 <= j < t.len() && t[j] == q;
                        assert(ports[j + 1] == q);
                    }
                } else {
                    assert(ports[0] == q);
                }
            }
            if inserted(t, p).contains(q) {
                let k = choose|k: int| 0 <= k < inserted(t, p).len() && inserted(t, p)[k] == q;
                assert(r[k + 1] == q);
            }
            if ports.contains(q) {
                let k = choose|k: int| 0 <= k < ports.len() && ports[k] == q;
                if k > 0 {
                    assert(t[k - 1] == q);
                    assert(t.contains(q));
                }
            }
        }
    }
}

/// `o` is an origin of this machine on the API's default port or one of the
/// two given ports.
pub open spec fn is_local_origin(o: Seq<char>, api: u16, ui: u16) -> bool {
    exists|host: Seq<char>, port: u16|
        #![trigger origin(host, port)]
        (host == "localhost"@ || host == "127.0.0.1"@ || host == "[::1]"@) && (port
            == DEFAULT_API_PORT || port == api || port == ui) && o == origin(host, port)
}

proof fn lemma_origins_on(ports: Seq<u16>, n: int, o: Seq<char>)
    requires
        0 <= n <= ports.len(),
    ensures
        origins_on(ports, n).contains(o) <==> exists|k: int|
            0 <= k < n && (o == origin("localhost"@, #[trigger] ports[k]) || o == origin(
                "127.0.0.1"@,
                ports[k],
            ) || o == origin("[::1]"@, ports[k])),
    decreases n,
{
    if n > 0 {
        lemma_origins_on(ports, n - 1, o);
        let before = origins_on(ports, n - 1);
        let here = seq![
            origin("localhost"@, ports[n - 1]),
            origin("127.0.0.1"@, ports[n - 1]),
            origin("[::1]"@, ports[n - 1]),
        ];
        let all = origins_on(ports, n);
        assert(all == before + here);
        if all.contains(o) {
            let k = choose|k: int| 0 <= k < all.len() && all[k] == o;
            if k < before.len() {
                assert(before[k] == o);
                assert(before.contains(o));
            } else {
                assert(here[k - before.len()] == o);
                assert(ports[n - 1] == ports[n - 1]);
            }
        }
        if before.contains(o) {
            let k = choose|k: int| 0 <= k < before.len() && before[k] == o;
            assert(all[k] == o);
        }
        if o == origin("localhost"@, ports[n - 1]) {
            assert(all[before.len() as int] == o);
        }
        if o == origin("127.0.0.1"@, ports[n - 1]) {
            assert(all[before.len() as int + 1] == o);
        }
        if o == origin("[::1]"@, ports[n - 1]) {
            assert(all[before.len() as int + 2] == o);
        }
    }
}

/// The trusted origins are exactly this machine's own on its ports.
pub proof fn law_trusted_origins_are_local(o: Seq<char>, api: u16, ui: u16)
    ensures
        trusted_origins(api, ui).contains(o) <==> is_local_origin(o, api, ui),
{
    let ports = trusted_ports(api, ui);
    let two = inserted(seq![DEFAULT_API_PORT], api);
    lemma_inserted_members(seq![DEFAULT_API_PORT], api);
    lemma_inserted_members(two, ui);
    lemma_origins_on(ports, ports.len() as int, o);
    assert forall|q: u16| #[trigger] ports.contains(q) <==> (q == DEFAULT_API_PORT || q == api || q
        == ui) by {
        assert(ports.contains(q) <==> (two.contains(q) || q == ui));
        assert(two.contains(q) <==> (seq![DEFAULT_API_PORT].contains(q) || q == api));
        assert(seq![DEFAULT_API_PORT][0] == DEFAULT_API_PORT);
    }
    if is_local_origin(o, api, ui) {
        let (host, port) = choose|host: Seq<char>, port: u16|
            #![trigger origin(host, port)]
            (host == "localhost"@ || host == "127.0.0.1"@ || host == "[::1]"@) && (port
                == DEFAULT_API_PORT || port == api || port == ui) && o == origin(host, port);
        assert(ports.contains(port));
        let k = choose|k: int| 0 <= k < ports.len() && ports[k] == port;
        assert(o == origin(host, ports[k]));
    }
    if trusted_origins(api, ui).contains(o) {
        let k = choose|k: int|
            0 <= k < ports.len() && (o == origin("localhost"@, #[trigger] ports[k]) || o == origin(
                "127.0.0.1"@,
                ports[k],
            ) || o == origin("[::1]"@, ports[k]));
        assert(ports.contains(ports[k]));
        assert(o == origin("localhost"@, ports[k]) || o == origin("127.0.0.1"@, ports[k]) || o
            == origin("[::1]"@, ports[k]));
    }
}

/// A call on the API that names an origin is admitted only if that origin is
/// this machine's own.
pub proof fn law_foreign_pages_are_refused(
    path: Seq<char>,
    page: Header,
    host_header: Header,
    api: u16,
    ui: u16,
)
    requires
        text::begins(path, "/api/"@),
        caller_refusal(path, page, host_header, trusted_origins(api, ui)) is None,
    ensures
        page !is Unreadable,
        page matches Header::Text(o) ==> is_local_origin(o@, api, ui),
        host_header !is Unreadable,
        host_header matches Header::Text(h) ==> is_local_origin("http://"@ + h@, api, ui),
{
    if let Header::Text(o) = page {
        reveal_strlit("");
        assert(""@ + o@ =~= o@);
        law_trusted_origins_are_local(o@, api, ui);
    }
    if let Header::Text(h) = host_header {
        law_trusted_origins_are_local("http://"@ + h@, api, ui);
    }
}

/// A port is named by its digits, with or without a plus sign; what is no number
/// up to 65535 names none.
pub proof fn law_a_port_is_named_by_its_digits(p: u16, s: Seq<char>)
    ensures
        port_named(decimal::digits(p as nat)) == Some(p),
        port_named(seq!['+'] + decimal::digits(p as nat)) == Some(p),
        port_named(Seq::empty()) is None,
        port_named(s) matches Some(q) ==> s.len() > 0 && (decimal::all_digits(s)
            && decimal::number(s) == q || s[0] == '+' && decimal::number(s.skip(1)) == q),
{
    decimal::law_digits_name_the_number(p as nat);
    let d = decimal::digits(p as nat);
    assert('0' <= d[0]);
    let signed = seq!['+'] + d;
    assert(signed.skip(1) =~= d);
    assert(Seq::<char>::empty().len() == 0);
}

/// A page of this machine on one of its ports may call, under any of this
/// machine's names; what is not of the API is open to all.
pub proof fn law_local_pages_may_call(
    path: Seq<char>,
    page: String,
    host: String,
    api: u16,
    ui: u16,
)
    ensures
        is_local_origin(page@, api, ui) && is_local_origin("http://"@ + host@, api, ui)
            ==> caller_refusal(
            path,
            Header::Text(page),
            Header::Text(host),
            trusted_origins(api, ui),
        ) is None,
        is_local_origin("http://"@ + host@, api, ui) ==> caller_refusal(
            path,
            Header::Absent,
            Header::Text(host),
            trusted_origins(api, ui),
        ) is None,
        !"/api/"@.is_prefix_of(path) ==> caller_refusal(
            path,
            Header::Text(page),
            Header::Text(host),
            trusted_origins(api, ui),
        ) is None,
        text::begins(path, "/api/"@) && !is_local_origin(page@, api, ui) ==> caller_refusal(
            path,
            Header::Text(page),
            Header::Text(host),
            trusted_origins(api, ui),
        ) is Some,
{
    reveal_strlit("");
    assert(""@ + page@ =~= page@);
    law_trusted_origins_are_local(page@, api, ui);
    law_trusted_origins_are_local("http://"@ + host@, api, ui);
}

/// The API is served on the port that its address ends in, and the interface on
/// the port that is set; where none is named, on 3877 and on 5173. The API's own
/// default port and both of these are always trusted.
pub proof fn law_which_ports_are_used(host: Seq<char>, p: u16, api: u16, ui: u16)
    ensures
        served_on(None) == 3877,
        shown_on(None) == 5173,
        served_on(Some(host + seq![':'] + decimal::digits(p as nat))) == p,
        shown_on(Some(decimal::digits(p as nat))) == p,
        trusted_origins(api, ui).contains("http://"@ + "localhost"@ + ":"@ + decimal::digits(3877)),
        trusted_origins(api, ui).contains(
            "http://"@ + "localhost"@ + ":"@ + decimal::digits(api as nat),
        ),
        trusted_origins(api, ui).contains(
            "http://"@ + "localhost"@ + ":"@ + decimal::digits(ui as nat),
        ),
{
    law_a_port_is_named_by_its_digits(p, Seq::empty());
    decimal::law_digits_name_the_number(p as nat);
    let d = decimal::digits(p as nat);
    if d.contains(':') {
        let i = choose|i: int| 0 <= i < d.len() && d[i] == ':';
        assert('0' <= d[i] <= '9');
    }
    text::law_what_follows_the_last(host, ':', d);
    law_trusted_origins_are_local(origin("localhost"@, 3877), api, ui);
    law_trusted_origins_are_local(origin("localhost"@, api), api, ui);
    law_trusted_origins_are_local(origin("localhost"@, ui), api, ui);
}

} // verus!
