//! Becoming a client of the server.
use vstd::prelude::*;

use crate::env::variables::Display;
use crate::path::UnixPath;
use crate::text;
use crate::xauthority::cookie::Cookie;

verus! {

/// Where a server may be reached.
pub enum Address {
    /// A socket in the file system.
    Socket(String),
    /// A host and a port.
    Hostname(String, u16),
    /// Some other way, of which nothing is known.
    Other,
}

/// Where a server may be reached.
#[verifier::ext_equal]
pub enum AddressView {
    Socket(Seq<char>),
    Hostname(Seq<char>, u16),
    Other,
}

impl View for Address {
    type V = AddressView;

    open spec fn view(&self) -> AddressView {
        match self {
            Address::Socket(path) => AddressView::Socket(path@),
            Address::Hostname(host, port) => AddressView::Hostname(host@, *port),
            Address::Other => AddressView::Other,
        }
    }
}

/// What each address of a list is.
pub open spec fn address_views(addresses: Seq<Address>) -> Seq<AddressView> {
    Seq::new(addresses.len(), |i: int| addresses[i]@)
}

/// The greatest display number that has a port.
pub const LAST_DISPLAY: u16 = 59535;

/// Where the server of a display of this host may be reached: by its socket,
/// then by its port.
pub open spec fn local_addresses(display: u16) -> Seq<AddressView> {
    seq![
        AddressView::Socket("/tmp/.X11-unix/X"@ + text::digits(display as nat)),
        AddressView::Hostname("localhost"@, (6000 + display) as u16),
    ]
}

/// `ParsedDisplay::connect_instruction` of x11rb, for a display of this host
/// that is reached by any protocol: its socket comes first, its port second.
/// The port is computed in 16 bits, so that greater numbers have none.
#[verifier::external_body]
fn connect_instruction(display: u16) -> (r: Vec<Address>)
    requires
        display <= LAST_DISPLAY,
    ensures
        address_views(r@) == local_addresses(display),
{
    let parsed = x11rb::reexports::x11rb_protocol::parse_display::ParsedDisplay {
        host: String::new(), protocol: None, display, screen: 0,
    };
    parsed.connect_instruction().map(|address| match address {
        x11rb::reexports::x11rb_protocol::parse_display::ConnectAddress::Socket(path) => Address::Socket(path),
        x11rb::reexports::x11rb_protocol::parse_display::ConnectAddress::Hostname(host, port) => Address::Hostname(host.to_owned(), port),
        _ => Address::Other,
    }).collect()
}

/// One attempt to connect: where to, and what to say there.
pub struct Attempt {
    pub address: Address,
    pub screen: usize,
    pub auth_name: Vec<u8>,
    pub auth_data: Vec<u8>,
}

/// One attempt to connect.
#[verifier::ext_equal]
pub struct AttemptView {
    pub address: AddressView,
    pub screen: usize,
    pub auth_name: Seq<u8>,
    pub auth_data: Seq<u8>,
}

impl View for Attempt {
    type V = AttemptView;

    open spec fn view(&self) -> AttemptView {
        AttemptView {
            address: self.address@,
            screen: self.screen,
            auth_name: self.auth_name@,
            auth_data: self.auth_data@,
        }
    }
}

/// Why there is no connection: no attempt has succeeded.
#[derive(Clone, Copy, PartialEq, Eq, Structural, Debug)]
pub struct NotConnected;

impl NotConnected {
    /// What the user is told.
    pub fn message(&self) -> (r: String)
        ensures
            r@ == "Failed to connect to Xorg"@,
    {
        "Failed to connect to Xorg".to_owned()
    }
}

/// What is to be done on the way to a connection.
pub enum ConnectStep {
    /// Nothing: the last attempt has succeeded, and its connection is the one.
    Connected,
    /// To make this attempt.
    Attempt(Attempt),
    /// To give up.
    Failed(NotConnected),
}

/// What is to be done on the way to a connection.
#[verifier::ext_equal]
pub enum ConnectStepView {
    Connected,
    Attempt(AttemptView),
    Failed(NotConnected),
}

impl View for ConnectStep {
    type V = ConnectStepView;

    open spec fn view(&self) -> ConnectStepView {
        match self {
            ConnectStep::Connected => ConnectStepView::Connected,
            ConnectStep::Attempt(attempt) => ConnectStepView::Attempt(attempt@),
            ConnectStep::Failed(e) => ConnectStepView::Failed(*e),
        }
    }
}

/// The attempts to connect that have not been made yet.
pub open spec fn attempts(
    addresses: Seq<AddressView>,
    auth_name: Seq<u8>,
    auth_data: Seq<u8>,
) -> Seq<AttemptView> {
    Seq::new(
        addresses.len(),
        |i: int| AttemptView { address: addresses[i], screen: 0, auth_name, auth_data },
    )
}

/// What is to be done, given the attempts that have not been made yet and whether
/// the last one has succeeded.
pub open spec fn next_step(remaining: Seq<AttemptView>, connected: bool) -> ConnectStepView {
    if connected {
        ConnectStepView::Connected
    } else if remaining.len() > 0 {
        ConnectStepView::Attempt(remaining[0])
    } else {
        ConnectStepView::Failed(NotConnected)
    }
}

/// The attempts that are left once it is known what is to be done.
pub open spec fn left(remaining: Seq<AttemptView>, connected: bool) -> Seq<AttemptView> {
    if !connected && remaining.len() > 0 {
        remaining.drop_first()
    } else {
        remaining
    }
}

/// What comes of making step after step, where `works` says which attempts
/// succeed and `connected` is the one that has, if one has: the attempt whose
/// connection is taken.
pub open spec fn connection(
    remaining: Seq<AttemptView>,
    works: spec_fn(AttemptView) -> bool,
    connected: Option<AttemptView>,
) -> Result<AttemptView, NotConnected>
    decreases remaining.len(),
{
    match next_step(remaining, connected is Some) {
        ConnectStepView::Connected => Ok(connected->0),
        ConnectStepView::Attempt(attempt) => connection(
            left(remaining, false),
            works,
            if works(attempt) {
                Some(attempt)
            } else {
                None
            },
        ),
        ConnectStepView::Failed(e) => Err(e),
    }
}

/// The attempts to connect to a display of this host with a cookie.
pub open spec fn local_attempts(display: u16, cookie: Seq<u8>) -> Seq<AttemptView> {
    attempts(local_addresses(display), text::utf8(Cookie::AUTH_NAME@), cookie)
}

/// Attempts to connect that have not been made yet.
pub struct Connecting {
    addresses: Vec<Address>,
    auth_name: Vec<u8>,
    auth_data: Vec<u8>,
}

impl Connecting {
    /// The attempts to make, from the first to the last.
    pub closed spec fn remaining(&self) -> Seq<AttemptView> {
        attempts(address_views(self.addresses@), self.auth_name@, self.auth_data@)
    }

    /// The attempts to connect to a display with a cookie.
    pub fn new(display: &Display, cookie: &Cookie) -> (r: Self)
        requires
            display@ <= LAST_DISPLAY,
        ensures
            r.remaining() == local_attempts(display@, cookie@),
    {
        let (auth_name, auth_data) = cookie.raw_data();
        Connecting { addresses: connect_instruction(display.number()), auth_name, auth_data }
    }

    /// The next attempt, if there is one left.
    pub fn next_attempt(&mut self) -> (r: Option<Attempt>)
        ensures
            match r {
                Some(attempt) => {
                    &&& old(self).remaining().len() > 0
                    &&& attempt@ == old(self).remaining()[0]
                    &&& final(self).remaining() == old(self).remaining().drop_first()
                },
                None => {
                    &&& old(self).remaining().len() == 0
                    &&& final(self).remaining() == old(self).remaining()
                },
            },
    {
        if self.addresses.len() == 0 {
            return None;
        }
        let address = self.addresses.remove(0);
        assert(self.remaining() =~= old(self).remaining().drop_first());
        Some(
            Attempt {
                address,
                screen: 0,
                auth_name: text::copy(&self.auth_name),
                auth_data: text::copy(&self.auth_data),
            },
        )
    }

    /// What is to be done, given whether there is a connection by now. Before the
    /// first attempt there is none; after an attempt, there is one if it has
    /// succeeded. The first success ends it, and it fails when no attempt is left.
    pub fn after(&mut self, connected: bool) -> (r: ConnectStep)
        ensures
            r@ == next_step(old(self).remaining(), connected),
            final(self).remaining() == left(old(self).remaining(), connected),
    {
        if connected {
            return ConnectStep::Connected;
        }
        match self.next_attempt() {
            Some(attempt) => ConnectStep::Attempt(attempt),
            None => ConnectStep::Failed(NotConnected),
        }
    }
}

/// Connects to a display in order to load resources there. Where no attempt
/// succeeds, loading fails as connecting does, without a look at the paths. No
/// resource is loaded so far.
pub fn load_resources(display: &Display, cookie: &Cookie, paths: &Vec<UnixPath>) -> (r: Connecting)
    requires
        display@ <= LAST_DISPLAY,
    ensures
        r.remaining() == local_attempts(display@, cookie@),
{
    Connecting::new(display, cookie)
}

// ---------------------------------------------------------------------------
// Laws
// ---------------------------------------------------------------------------
/// The connection is that of the first attempt that succeeds, whichever fail before
/// it, and there is none only where every attempt fails.
pub proof fn law_first_success(
    remaining: Seq<AttemptView>,
    works: spec_fn(AttemptView) -> bool,
)
    ensures
        match connection(remaining, works, None) {
            Ok(taken) => exists|i: int|
                {
                    &&& 0 <= i < remaining.len()
                    &&& #[trigger] remaining[i] == taken
                    &&& works(taken)
                    &&& forall|j: int| 0 <= j < i ==> !works(#[trigger] remaining[j])
                },
            Err(_) => forall|i: int| 0 <= i < remaining.len() ==> !works(#[trigger] remaining[i]),
        },
    decreases remaining.len(),
{
    if remaining.len() > 0 {
        let first = remaining[0];
        let rest = remaining.drop_first();
        if works(first) {
            reveal_with_fuel(connection, 2);
            assert(connection(remaining, works, None) == Ok::<AttemptView, NotConnected>(first));
            assert(remaining[0] == first);
        } else {
            law_first_success(rest, works);
            assert(connection(remaining, works, None) == connection(rest, works, None));
            match connection(rest, works, None) {
                Ok(taken) => {
                    let i = choose|i: int|
                        {
                            &&& 0 <= i < rest.len()
                            &&& #[trigger] rest[i] == taken
                            &&& works(taken)
                            &&& forall|j: int| 0 <= j < i ==> !works(#[trigger] rest[j])
                        };
                    assert(remaining[i + 1] == taken);
                    assert forall|j: int| 0 <= j < i + 1 implies !works(
                        #[trigger] remaining[j],
                    ) by {
                        if j > 0 {
                            assert(rest[j - 1] == remaining[j]);
                        }
                    }
                },
                Err(_) => {
                    assert forall|j: int| 0 <= j < remaining.len() implies !works(
                        #[trigger] remaining[j],
                    ) by {
                        if j > 0 {
                            assert(rest[j - 1] == remaining[j]);
                        }
                    }
                },
            }
        }
    }
}

/// A display of this host is connected to by its socket if that works with the
/// cookie, otherwise by its port if that works with it, and otherwise not at all.
pub proof fn law_local_connection(
    display: u16,
    cookie: Seq<u8>,
    works: spec_fn(AttemptView) -> bool,
)
    ensures
        ({
            let socket = AttemptView {
                address: AddressView::Socket("/tmp/.X11-unix/X"@ + text::digits(display as nat)),
                screen: 0,
                auth_name: text::utf8(Cookie::AUTH_NAME@),
                auth_data: cookie,
            };
            let port = AttemptView {
                address: AddressView::Hostname("localhost"@, (6000 + display) as u16),
                ..socket
            };
            connection(local_attempts(display, cookie), works, None) == (if works(socket) {
                Ok(socket)
            } else if works(port) {
                Ok(port)
            } else {
                Err(NotConnected)
            })
        }),
{
    let all = local_attempts(display, cookie);
    reveal_with_fuel(connection, 4);
    assert(all.drop_first()[0] == all[1]);
    assert(all.drop_first().drop_first() =~= Seq::<AttemptView>::empty());
}

/// Every display has a port as far as there are ports.
pub proof fn law_last_port()
    ensures
        LAST_DISPLAY + 6000 == u16::MAX,
{
}

} // verus!
