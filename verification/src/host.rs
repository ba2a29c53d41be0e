//! A server of one's own: the addresses at which it is found, and how others are
//! invited.
use crate::seqs::{lemma_filter_step, sort, sorted, Ranked};
use crate::text::{decimal, glue, glue3, number};
use vstd::prelude::*;
use vstd::string::*;

verus! {

/// An address of four numbers.
#[derive(Debug, Clone, Copy, PartialEq, Eq, Structural)]
pub struct Address {
    pub a: u8,
    pub b: u8,
    pub c: u8,
    pub d: u8,
}

impl DeepView for Address {
    type V = Address;

    open spec fn deep_view(&self) -> Address {
        *self
    }
}

/// What was found out about a network interface.
#[derive(Debug, Clone, Copy, PartialEq, Eq, Structural)]
pub struct Interface {
    /// Whether it leads back to the machine itself.
    pub loopback: bool,
    /// Its address, where it is one of four numbers.
    pub address: Option<Address>,
}

impl Address {
    /// The address as one number.
    pub open spec fn value(self) -> int {
        self.a * 16777216 + self.b * 65536 + self.c * 256 + self.d
    }

    /// Whether the address belongs to a network of one's own.
    pub open spec fn private(self) -> bool {
        ||| self.a == 10
        ||| self.a == 172 && 16 <= self.b <= 31
        ||| self.a == 192 && self.b == 168
    }

    /// How likely the address leads to the neighbours: the least number is the most
    /// likely. Addresses that begin with 172 are mostly bridges on the machine itself.
    pub open spec fn rank_of(self) -> int {
        if self.a == 192 && self.b == 168 {
            0
        } else if self.a == 10 {
            1
        } else {
            2
        }
    }

    /// The address as it is written.
    pub open spec fn text(self) -> Seq<char> {
        decimal(self.a as nat) + "."@ + decimal(self.b as nat) + "."@ + decimal(self.c as nat)
            + "."@ + decimal(self.d as nat)
    }

    /// Whether the address belongs to a network of one's own.
    pub fn is_private(self) -> (r: bool)
        ensures
            r == self.private(),
    {
        self.a == 10 || (self.a == 172 && self.b >= 16 && self.b <= 31) || (self.a == 192
            && self.b == 168)
    }

    /// The address as it is written.
    pub fn to_text(self) -> (r: String)
        ensures
            r@ == self.text(),
    {
        let mut r = glue3(number(self.a as u64).as_str(), ".", number(self.b as u64).as_str());
        r.append(".");
        r.append(number(self.c as u64).as_str());
        r.append(".");
        r.append(number(self.d as u64).as_str());
        r
    }
}

/// How likely an address leads to the neighbours.
pub fn rank(address: Address) -> (r: u8)
    ensures
        r == address.rank_of(),
{
    if address.a == 192 && address.b == 168 {
        0
    } else if address.a == 10 {
        1
    } else {
        2
    }
}

/// The place of an address in a list: by its likelihood, then by its numbers.
pub open spec fn weight(address: Address) -> int {
    address.rank_of() * 4294967296 + address.value()
}

impl Ranked for Address {
    open spec fn ranks(a: Address, b: Address) -> bool {
        weight(a) <= weight(b)
    }

    fn before(&self, other: &Self) -> (r: bool) {
        let one: u64 = rank(*self) as u64 * 4294967296 + self.a as u64 * 16777216 + self.b as u64
            * 65536 + self.c as u64 * 256 + self.d as u64;
        let two: u64 = rank(*other) as u64 * 4294967296 + other.a as u64 * 16777216
            + other.b as u64 * 65536 + other.c as u64 * 256 + other.d as u64;
        one <= two
    }
}

/// Whether an interface leads to the neighbours.
pub open spec fn leads_out() -> spec_fn(Interface) -> bool {
    |i: Interface| !i.loopback && i.address is Some && i.address->0.private()
}

/// The addresses of those interfaces that lead to the neighbours.
pub open spec fn offered(found: Seq<Interface>) -> Seq<Address> {
    found.filter(leads_out()).map_values(|i: Interface| i.address->0)
}

/// Without the items that are equal to the one before them.
pub open spec fn without_repeats(s: Seq<Address>) -> Seq<Address>
    decreases s.len(),
{
    if s.len() <= 1 {
        s
    } else if s.last() == s[s.len() - 2] {
        without_repeats(s.drop_last())
    } else {
        without_repeats(s.drop_last()).push(s.last())
    }
}

/// The addresses at which the neighbours find the machine, the most likely one first.
pub open spec fn neighbourly(found: Seq<Interface>) -> Seq<Address> {
    without_repeats(sorted(offered(found), |a: Address, b: Address| Address::ranks(a, b)))
}

/// The addresses of those interfaces that lead to the neighbours.
#[verifier::loop_isolation(false)]
fn pick_offered(found: &Vec<Interface>) -> (r: Vec<Address>)
    ensures
        r@ == offered(found@),
{
    let ghost test = leads_out();
    let ghost place = |i: Interface| i.address->0;
    let mut r: Vec<Address> = Vec::new();
    let mut i: usize = 0;
    proof {
        reveal(Seq::filter);
        assert(found@.take(0).filter(test) =~= Seq::<Interface>::empty());
        assert(r@ =~= found@.take(0).filter(test).map_values(place));
    }
    while i < found.len()
        invariant
            i <= found@.len(),
            r@ == found@.take(i as int).filter(test).map_values(place),
        decreases found@.len() - i,
    {
        let one = found[i];
        let ghost kept = found@.take(i as int).filter(test);
        proof {
            lemma_filter_step(found@, i as int, test);
        }
        if !one.loopback {
            if let Some(address) = one.address {
                if address.is_private() {
                    r.push(address);
                    assert(r@ =~= kept.push(one).map_values(place));
                }
            }
        }
        i = i + 1;
    }
    assert(found@.take(found@.len() as int) =~= found@);
    r
}

proof fn lemma_last_stays(s: Seq<Address>)
    requires
        s.len() > 0,
    ensures
        without_repeats(s).len() > 0,
        without_repeats(s).last() == s.last(),
    decreases s.len(),
{
    if s.len() > 1 {
        lemma_last_stays(s.drop_last());
    }
}

/// The addresses at which the neighbours find the machine, the most likely one first.
/// All interfaces are gone through: on a machine with virtual networks the usual route
/// may lead nowhere.
#[verifier::loop_isolation(false)]
pub fn local_ips(found: &Vec<Interface>) -> (r: Vec<Address>)
    ensures
        r@ == neighbourly(found@),
{
    let picked = pick_offered(found);
    assert(picked.deep_view() =~= picked@);
    let list = sort(picked);
    assert(list.deep_view() =~= list@);
    let ghost all = list@;
    assert(all == sorted(offered(found@), |a: Address, b: Address| Address::ranks(a, b)));
    let mut r: Vec<Address> = Vec::new();
    let mut i: usize = 0;
    assert(r@ =~= without_repeats(all.take(0)));
    while i < list.len()
        invariant
            i <= list@.len(),
            r@ == without_repeats(all.take(i as int)),
        decreases list@.len() - i,
    {
        let address = list[i];
        proof {
            assert(all.take(i + 1).drop_last() =~= all.take(i as int));
            assert(all.take(i + 1).last() == address);
            if i > 0 {
                lemma_last_stays(all.take(i as int));
                assert(all.take(i as int).last() == all[i - 1]);
                assert(all.take(i + 1)[i - 1] == all[i - 1]);
            } else {
                assert(all.take(1) =~= seq![address]);
            }
        }
        if i == 0 || list[i - 1] != address {
            r.push(address);
        }
        i = i + 1;
        assert(r@ =~= without_repeats(all.take(i as int)));
    }
    assert(all.take(all.len() as int) =~= all);
    r
}

/// A server that was started right here.
#[derive(Debug, PartialEq, Eq)]
pub struct Hosted {
    /// Where the client itself connects to.
    pub url: String,
    pub port: u16,
    /// The ticket for a friend in another network. Without a tunnel there is none: in a
    /// local network the conversation works all the same.
    pub ticket: Option<String>,
}

pub struct HostedView {
    pub url: Seq<char>,
    pub port: u16,
    pub ticket: Option<Seq<char>>,
}

impl DeepView for Hosted {
    type V = HostedView;

    open spec fn deep_view(&self) -> HostedView {
        HostedView { url: self.url@, port: self.port, ticket: self.ticket.deep_view() }
    }
}

/// The address of a server on this machine.
pub open spec fn own_url(port: u16) -> Seq<char> {
    "ws://127.0.0.1:"@ + decimal(port as nat) + "/ws"@
}

/// An invitation for those who are near.
pub open spec fn near_line(address: Address, port: u16) -> Seq<char> {
    "кто рядом: --server ws://"@ + address.text() + ":"@ + decimal(port as nat)
        + "/ws · с телефона http://"@ + address.text() + ":"@ + decimal(port as nat)
}

impl HostedView {
    /// The lines that invite others. The ticket comes first: it works from anywhere.
    pub open spec fn inviting(self, addresses: Seq<Address>) -> Seq<Seq<char>> {
        let first = "сервер поднят здесь же, порт "@ + decimal(self.port as nat);
        (match self.ticket {
            Some(ticket) => seq![
                first,
                "друг из любой сети — пусть вставит это в «сервер»:"@,
                ticket,
            ],
            None => seq![
                first,
                "туннель не поднялся: снаружи не подключиться, только по сети ниже"@,
            ],
        }) + addresses.map_values(|address: Address| near_line(address, self.port))
    }
}

fn make_near(address: Address, port: u16) -> (r: String)
    ensures
        r@ == near_line(address, port),
{
    let place = address.to_text();
    let port_text = number(port as u64);
    let mut r = glue3("кто рядом: --server ws://", place.as_str(), ":");
    r.append(port_text.as_str());
    r.append("/ws · с телефона http://");
    r.append(place.as_str());
    r.append(":");
    r.append(port_text.as_str());
    r
}

impl Hosted {
    /// A server that listens on a port, with the ticket of its tunnel where there is one.
    pub fn at(port: u16, ticket: Option<String>) -> (r: Hosted)
        ensures
            r.deep_view() == (HostedView {
                url: own_url(port),
                port,
                ticket: ticket.deep_view(),
            }),
    {
        Hosted {
            url: glue3("ws://127.0.0.1:", number(port as u64).as_str(), "/ws"),
            port,
            ticket,
        }
    }

    /// The lines that invite others.
    #[verifier::loop_isolation(false)]
    pub fn invitations(&self, addresses: &Vec<Address>) -> (r: Vec<String>)
        ensures
            r.deep_view() == self.deep_view().inviting(addresses@),
    {
        let ghost near = addresses@.map_values(|address: Address| near_line(address, self.port));
        let mut r: Vec<String> = Vec::new();
        r.push(glue("сервер поднят здесь же, порт ", number(self.port as u64).as_str()));
        match &self.ticket {
            Some(ticket) => {
                r.push("друг из любой сети — пусть вставит это в «сервер»:".to_owned());
                r.push(ticket.clone());
            },
            None => {
                r.push(
                    "туннель не поднялся: снаружи не подключиться, только по сети ниже".to_owned(),
                );
            },
        }
        let ghost head = r.deep_view();
        let mut i: usize = 0;
        assert(r.deep_view() =~= head + near.take(0));
        while i < addresses.len()
            invariant
                i <= addresses@.len(),
                r.deep_view() == head + near.take(i as int),
            decreases addresses@.len() - i,
        {
            let ghost before = r.deep_view();
            r.push(make_near(addresses[i], self.port));
            assert(r.deep_view() =~= before.push(near[i as int]));
            i = i + 1;
            assert(r.deep_view() =~= head + near.take(i as int));
        }
        assert(near.take(near.len() as int) =~= near);
        assert(r.deep_view() =~= self.deep_view().inviting(addresses@));
        r
    }
}

/// The names in a certificate: without the right address a phone would refuse it for
/// good.
pub open spec fn named_in_certificate(addresses: Seq<Address>) -> Seq<Seq<char>> {
    seq!["localhost"@, "127.0.0.1"@] + addresses.map_values(|address: Address| address.text())
}

/// The files of a certificate and of its key. They are kept: a phone would complain of a
/// new certificate after every start.
pub struct Certificate {
    pub cert: String,
    pub key: String,
}

#[verifier::ext_equal]
pub struct CertificateView {
    pub cert: Seq<char>,
    pub key: Seq<char>,
}

impl DeepView for Certificate {
    type V = CertificateView;

    open spec fn deep_view(&self) -> CertificateView {
        CertificateView { cert: self.cert@, key: self.key@ }
    }
}

impl Certificate {
    /// The names of the two files.
    pub fn files() -> (r: Certificate)
        ensures
            r.deep_view() == (CertificateView { cert: "cert.pem"@, key: "key.pem"@ }),
    {
        Certificate { cert: "cert.pem".to_owned(), key: "key.pem".to_owned() }
    }

    /// Whether a certificate has to be made: one is of no use without its key.
    pub fn is_due(cert: bool, key: bool) -> (r: bool)
        ensures
            r == !(cert && key),
    {
        !cert || !key
    }
}

/// The names in a certificate.
#[verifier::loop_isolation(false)]
pub fn certificate_names(addresses: &Vec<Address>) -> (r: Vec<String>)
    ensures
        r.deep_view() == named_in_certificate(addresses@),
{
    let ghost texts = addresses@.map_values(|address: Address| address.text());
    let mut r: Vec<String> = Vec::new();
    r.push("localhost".to_owned());
    r.push("127.0.0.1".to_owned());
    let ghost head = r.deep_view();
    let mut i: usize = 0;
    assert(r.deep_view() =~= head + texts.take(0));
    while i < addresses.len()
        invariant
            i <= addresses@.len(),
            r.deep_view() == head + texts.take(i as int),
        decreases addresses@.len() - i,
    {
        let ghost before = r.deep_view();
        r.push(addresses[i].to_text());
        assert(r.deep_view() =~= before.push(texts[i as int]));
        i = i + 1;
        assert(r.deep_view() =~= head + texts.take(i as int));
    }
    assert(texts.take(texts.len() as int) =~= texts);
    assert(r.deep_view() =~= named_in_certificate(addresses@));
    r
}

/// What a server says when it begins to listen: where it is found from here, and where
/// from a phone.
pub open spec fn announced(scheme: Seq<char>, port: u16, addresses: Seq<Address>) -> Seq<Seq<char>> {
    seq!["слушаю "@ + scheme + "://localhost:"@ + decimal(port as nat)] + addresses.map_values(
        |address: Address| phone_line(scheme, address, port),
    )
}

/// Where a server is found from a phone.
pub open spec fn phone_line(scheme: Seq<char>, address: Address, port: u16) -> Seq<char> {
    "с телефона: "@ + scheme + "://"@ + address.text() + ":"@ + decimal(port as nat)
}

fn make_phone(scheme: &str, address: Address, port: u16) -> (r: String)
    ensures
        r@ == phone_line(scheme@, address, port),
{
    let mut r = glue3("с телефона: ", scheme, "://");
    r.append(address.to_text().as_str());
    r.append(":");
    r.append(number(port as u64).as_str());
    r
}

/// What a server says when it begins to listen.
#[verifier::loop_isolation(false)]
pub fn announce(scheme: &str, port: u16, addresses: &Vec<Address>) -> (r: Vec<String>)
    ensures
        r.deep_view() == announced(scheme@, port, addresses@),
{
    let ghost near = addresses@.map_values(
        |address: Address| phone_line(scheme@, address, port),
    );
    let mut first = glue3("слушаю ", scheme, "://localhost:");
    first.append(number(port as u64).as_str());
    let mut r: Vec<String> = Vec::new();
    r.push(first);
    let ghost head = r.deep_view();
    let mut i: usize = 0;
    assert(r.deep_view() =~= head + near.take(0));
    while i < addresses.len()
        invariant
            i <= addresses@.len(),
            r.deep_view() == head + near.take(i as int),
        decreases addresses@.len() - i,
    {
        let ghost before = r.deep_view();
        r.push(make_phone(scheme, addresses[i], port));
        assert(r.deep_view() =~= before.push(near[i as int]));
        i = i + 1;
        assert(r.deep_view() =~= head + near.take(i as int));
    }
    assert(near.take(near.len() as int) =~= near);
    assert(r.deep_view() =~= announced(scheme@, port, addresses@));
    r
}

/// The directory of the certificate, where encryption was asked for: by a value that is
/// neither empty nor `0`.
pub open spec fn certificate_dir(value: Option<Seq<char>>, dir: Option<Seq<char>>) -> Option<
    Seq<char>,
> {
    match value {
        Some(value) => if value.len() == 0 || value == "0"@ {
            None
        } else {
            match dir {
                Some(dir) => Some(dir),
                None => Some("tls"@),
            }
        },
        None => None,
    }
}

/// The directory of the certificate, where encryption was asked for.
pub fn tls_dir(value: Option<String>, dir: Option<String>) -> (r: Option<String>)
    ensures
        r.deep_view() == certificate_dir(value.deep_view(), dir.deep_view()),
{
    match value {
        Some(value) => {
            if value.as_str().is_empty() || crate::text::same(value.as_str(), "0") {
                None
            } else {
                match dir {
                    Some(dir) => Some(dir),
                    None => Some("tls".to_owned()),
                }
            }
        },
        None => None,
    }
}

/// Only addresses of networks of one's own are offered, each of them that was found, and
/// none twice; one of a home network stands before all others.
pub proof fn law_only_neighbours_are_offered(found: Seq<Interface>)
    ensures
        forall|i: int|
            0 <= i < neighbourly(found).len() ==> (#[trigger] neighbourly(found)[i]).private()
                && offered(found).contains(neighbourly(found)[i]),
        forall|i: int|
            0 <= i < offered(found).len() ==> neighbourly(found).contains(
                #[trigger] offered(found)[i],
            ),
        forall|i: int, j: int|
            0 <= i < j < neighbourly(found).len() ==> weight(neighbourly(found)[i]) < weight(
                neighbourly(found)[j],
            ),
{
    let le = |a: Address, b: Address| Address::ranks(a, b);
    let list = sorted(offered(found), le);
    assert(crate::seqs::total_order(le));
    crate::seqs::law_sorted_keeps_items(offered(found), le);
    crate::seqs::law_sorted_is_in_order(offered(found), le);
    lemma_repeats(list);
    let final_list = neighbourly(found);
    let kept = found.filter(leads_out());
    assert forall|i: int| 0 <= i < offered(found).len() implies (#[trigger] offered(
        found,
    )[i]).private() by {
        broadcast use vstd::seq_lib::group_filter_ensures;

        assert(leads_out()(kept[i]));
    }
    assert forall|i: int| 0 <= i < final_list.len() implies (#[trigger] final_list[i]).private()
        && offered(found).contains(final_list[i]) by {
        assert(list.contains(final_list[i]));
        let k = list.index_of(final_list[i]);
        assert(list.to_multiset().count(list[k]) > 0) by {
            list.to_multiset_ensures();
        }
        offered(found).to_multiset_ensures();
        assert(offered(found).contains(final_list[i]));
    }
    assert forall|i: int| 0 <= i < offered(found).len() implies final_list.contains(
        #[trigger] offered(found)[i],
    ) by {
        offered(found).to_multiset_ensures();
        list.to_multiset_ensures();
        let address = offered(found)[i];
        assert(offered(found).contains(address));
        assert(offered(found).to_multiset().count(address) > 0);
        assert(list.to_multiset().count(address) > 0);
        assert(list.contains(address));
    }
}

/// Two addresses with the same place are the same.
proof fn lemma_weight_is_the_address(x: Address, y: Address)
    requires
        weight(x) == weight(y),
    ensures
        x == y,
{
    assert(0 <= x.value() < 4294967296);
    assert(0 <= y.value() < 4294967296);
    assert(x.rank_of() == y.rank_of());
    assert(x.value() == y.value());
    assert(x.a == y.a);
    assert(x.b == y.b);
    assert(x.c == y.c);
}

proof fn lemma_repeats(s: Seq<Address>)
    requires
        crate::seqs::in_order(s, |a: Address, b: Address| Address::ranks(a, b)),
    ensures
        forall|x: Address| #[trigger] s.contains(x) <==> without_repeats(s).contains(x),
        forall|i: int, j: int|
            0 <= i < j < without_repeats(s).len() ==> weight(without_repeats(s)[i]) < weight(
                without_repeats(s)[j],
            ),
    decreases s.len(),
{
    let le = |a: Address, b: Address| Address::ranks(a, b);
    if s.len() > 1 {
        let t = s.drop_last();
        assert(crate::seqs::in_order(t, le)) by {
            assert forall|i: int, j: int| 0 <= i < j < t.len() implies le(t[i], t[j]) by {
                assert(le(s[i], s[j]));
            }
        }
        lemma_repeats(t);
        lemma_last_stays(t);
        let r = without_repeats(s);
        let q = without_repeats(t);
        assert(s =~= t.push(s.last()));
        assert(t.last() == s[s.len() - 2]);
        assert(le(s[s.len() - 2], s[s.len() - 1]));
        assert forall|x: Address| #[trigger] s.contains(x) implies r.contains(x) by {
            if t.contains(x) {
                assert(q.contains(x));
                let k = q.index_of(x);
                assert(r[k] == x);
            } else {
                let k = s.index_of(x);
                assert(k == s.len() - 1) by {
                    if k < s.len() - 1 {
                        assert(t[k] == x);
                    }
                }
                if s.last() == t.last() {
                    assert(t.contains(x)) by {
                        assert(t[t.len() - 1] == x);
                    }
                } else {
                    assert(r[r.len() - 1] == x);
                }
            }
        }
        assert forall|x: Address| r.contains(x) implies #[trigger] s.contains(x) by {
            let k = r.index_of(x);
            if k < q.len() {
                assert(q[k] == x);
                assert(q.contains(x));
                assert(t.contains(x));
                let m = t.index_of(x);
                assert(s[m] == x);
            } else {
                assert(s[s.len() - 1] == x);
            }
        }
        if s.last() != t.last() {
            if weight(s.last()) == weight(t.last()) {
                lemma_weight_is_the_address(s.last(), t.last());
            }
        }
    }
}

} // verus!
