//! Where an application can be reached on its machine, and who holds that place.

use vstd::prelude::*;
use vstd::string::{StrSliceExecFns, StringExecFns};
use vstd::utf8::encode_utf8;
use crate::bytes::{bytes_equal, push_bytes};
use crate::digest::{digest_prefix, sha256, sha256_digest};
use crate::identity::EndpointId;
use crate::local::LocalAddress;
use crate::text::{decimal_digit, decimal_text, hex_text, is_empty_text, push_decimal, push_hex, text_equal};

verus! {

/// Whether a character may stand in the name of an application.
pub open spec fn app_char(c: char) -> bool {
    ('a' <= c && c <= 'z') || ('A' <= c && c <= 'Z') || ('0' <= c && c <= '9') || c == '.' || c == '-'
        || c == '_'
}

/// Whether a text names an application.
pub open spec fn is_app_text(s: Seq<char>) -> bool {
    s.len() > 0 && forall|i: int| 0 <= i < s.len() ==> app_char(#[trigger] s[i])
}

/// The name of an application that all its hosts share.
#[derive(Debug, Eq, Hash, Ord, PartialEq, PartialOrd)]
pub struct AppId(String);

impl View for AppId {
    type V = Seq<char>;

    closed spec fn view(&self) -> Seq<char> {
        self.0@
    }
}

impl AppId {
    #[verifier::type_invariant]
    spec fn named(self) -> bool {
        is_app_text(self.0@)
    }

    pub fn new(value: &str) -> (id: Result<Self, AppEndpointError>)
        ensures
            match id {
                Ok(id) => is_app_text(value@) && id@ == value@,
                Err(e) => !is_app_text(value@) && e == AppEndpointError::InvalidAppId,
            },
    {
        let len: usize = value.unicode_len();
        if len == 0 {
            return Err(AppEndpointError::InvalidAppId);
        }
        let mut i: usize = 0;
        while i < len
            invariant
                len == value@.len(),
                i <= len,
                forall|j: int| 0 <= j < i ==> app_char(#[trigger] value@[j]),
            decreases len - i,
        {
            let c = value.get_char(i);
            if !(('a' <= c && c <= 'z') || ('A' <= c && c <= 'Z') || ('0' <= c && c <= '9') || c == '.'
                || c == '-' || c == '_') {
                return Err(AppEndpointError::InvalidAppId);
            }
            i = i + 1;
        }
        Ok(AppId(value.to_owned()))
    }

    pub fn as_str(&self) -> (text: &str)
        ensures
            text@ == self@,
            is_app_text(text@),
    {
        proof {
            use_type_invariant(self);
        }
        self.0.as_str()
    }

    /// The name as it is shown.
    pub fn display_text(&self) -> (text: String)
        ensures
            text@ == self@,
    {
        self.0.clone()
    }
}

impl Clone for AppId {
    fn clone(&self) -> (copy: Self)
        ensures
            copy@ == self@,
    {
        proof {
            use_type_invariant(self);
        }
        AppId(self.0.clone())
    }
}

/// Who uses the machine, and in which session.
#[derive(Clone, Debug, Eq, PartialEq)]
pub struct SessionIdentity {
    pub user_key: String,
    pub session_key: String,
}

/// The first of two texts that is there, or a third.
pub open spec fn first_text(a: Option<String>, b: Option<String>, fallback: Seq<char>) -> Seq<char> {
    match (a, b) {
        (Some(text), _) => text@,
        (None, Some(text)) => text@,
        (None, None) => fallback,
    }
}

impl SessionIdentity {
    /// The identity that the variables of the environment tell: `USER` or `USERNAME`,
    /// and `XDG_SESSION_ID` or `SESSIONNAME`. Without a session the process stands for
    /// it.
    pub fn from_environment(
        user: Option<String>,
        username: Option<String>,
        xdg_session: Option<String>,
        session_name: Option<String>,
        process: u32,
    ) -> (identity: Self)
        ensures
            identity.user_key@ == first_text(user, username, "local-user"@),
            identity.session_key@ == first_text(
                xdg_session,
                session_name,
                "pid-"@ + decimal_text(process as nat),
            ),
    {
        let user_key = match (user, username) {
            (Some(text), _) => text,
            (None, Some(text)) => text,
            (None, None) => "local-user".to_owned(),
        };
        let session_key = match (xdg_session, session_name) {
            (Some(text), _) => text,
            (None, Some(text)) => text,
            (None, None) => {
                let mut text = "pid-".to_owned();
                push_decimal(&mut text, process as u64);
                text
            },
        };
        SessionIdentity { user_key, session_key }
    }
}

#[derive(Clone, Copy, Debug, Eq, PartialEq, Structural)]
pub enum AppEndpointError {
    InvalidAppId,
    InvalidCapability,
    LeaseIo,
}

impl AppEndpointError {
    /// What may be told of the error.
    #[verifier::allow_in_spec]
    pub fn message(self) -> &'static str
        returns
            (match self {
                AppEndpointError::InvalidAppId => "app id is invalid",
                AppEndpointError::InvalidCapability => "capability descriptor is invalid",
                AppEndpointError::LeaseIo => "endpoint lease io failed",
            }),
    {
        match self {
            AppEndpointError::InvalidAppId => "app id is invalid",
            AppEndpointError::InvalidCapability => "capability descriptor is invalid",
            AppEndpointError::LeaseIo => "endpoint lease io failed",
        }
    }

    /// The text that may be shown to a user.
    pub fn display_text(&self) -> (text: String)
        ensures
            text@ == self.message()@,
    {
        self.message().to_owned()
    }
}

/// Something that an application can do for others.
#[derive(Clone, Debug, Eq, PartialEq)]
pub struct CapabilityOffer {
    pub name: String,
    pub protocol_version: u32,
    pub schema_version: u32,
    pub ready: bool,
}

impl CapabilityOffer {
    pub fn new(name: &str, protocol_version: u32, schema_version: u32, ready: bool) -> (offer: Result<
        Self,
        AppEndpointError,
    >)
        ensures
            match offer {
                Ok(o) => {
                    &&& name@.len() > 0
                    &&& o.name@ == name@
                    &&& o.protocol_version == protocol_version
                    &&& o.schema_version == schema_version
                    &&& o.ready == ready
                },
                Err(e) => name@.len() == 0 && e == AppEndpointError::InvalidCapability,
            },
    {
        if is_empty_text(name) {
            return Err(AppEndpointError::InvalidCapability);
        }
        Ok(CapabilityOffer { name: name.to_owned(), protocol_version, schema_version, ready })
    }
}

/// An application that can be reached.
#[derive(Clone, Debug, Eq, PartialEq)]
pub struct AppEndpointDescriptor {
    pub app_id: AppId,
    pub instance_id: String,
    pub host_protocol_version: u32,
    pub endpoint_id: EndpointId,
    pub address: LocalAddress,
    pub capabilities: Vec<CapabilityOffer>,
}

/// Whether an offer is ready under a name and in exactly these versions.
pub open spec fn offers(
    offer: CapabilityOffer,
    name: Seq<char>,
    protocol_version: u32,
    schema_version: u32,
) -> bool {
    &&& offer.name@ == name
    &&& offer.protocol_version == protocol_version
    &&& offer.schema_version == schema_version
    &&& offer.ready
}

impl AppEndpointDescriptor {
    /// Whether the application offers something in exactly these versions.
    pub fn capability_ready(&self, name: &str, protocol_version: u32, schema_version: u32) -> (ready: bool)
        ensures
            ready == exists|i: int|
                0 <= i < self.capabilities@.len() && offers(
                    #[trigger] self.capabilities@[i],
                    name@,
                    protocol_version,
                    schema_version,
                ),
    {
        let mut i: usize = 0;
        while i < self.capabilities.len()
            invariant
                i <= self.capabilities@.len(),
                forall|j: int|
                    0 <= j < i ==> !offers(
                        #[trigger] self.capabilities@[j],
                        name@,
                        protocol_version,
                        schema_version,
                    ),
            decreases self.capabilities@.len() - i,
        {
            let offer = &self.capabilities[i];
            if text_equal(offer.name.as_str(), name) && offer.protocol_version == protocol_version
                && offer.schema_version == schema_version && offer.ready {
                return true;
            }
            i = i + 1;
        }
        false
    }
}

/// A text with dashes in place of dots.
pub open spec fn dashed(text: Seq<char>) -> Seq<char> {
    text.map_values(
        |c: char|
            if c == '.' {
                '-'
            } else {
                c
            },
    )
}

fn push_dashed(out: &mut String, text: &str)
    ensures
        final(out)@ == old(out)@ + dashed(text@),
{
    let ghost before = out@;
    let len: usize = text.unicode_len();
    let mut i: usize = 0;
    proof {
        reveal_strlit("-");
        assert(out@ =~= before + dashed(text@.subrange(0, 0)));
    }
    while i < len
        invariant
            len == text@.len(),
            i <= len,
            "-"@ == seq!['-'],
            out@ == before + dashed(text@.subrange(0, i as int)),
        decreases len - i,
    {
        if text.get_char(i) == '.' {
            out.append("-");
        } else {
            out.append(text.substring_char(i, i + 1));
        }
        assert(out@ =~= before + dashed(text@.subrange(0, i + 1)));
        i = i + 1;
    }
    assert(text@.subrange(0, i as int) =~= text@);
}

/// The bytes from which a place is derived: what it is for, the application, the user
/// and the session, with zero bytes between them.
pub open spec fn place_input(domain: Seq<char>, app: Seq<char>, user: Seq<char>, session: Seq<char>) -> Seq<u8> {
    encode_utf8(domain).push(0) + encode_utf8(app).push(0) + encode_utf8(user).push(0) + encode_utf8(session)
}

fn place_digest(domain: &str, app_id: &AppId, session: &SessionIdentity) -> (digest: [u8; 32])
    ensures
        digest@ == sha256(
            place_input(domain@, app_id@, session.user_key@, session.session_key@),
        ),
{
    let mut input: Vec<u8> = Vec::new();
    push_bytes(&mut input, domain.as_bytes());
    input.push(0);
    push_bytes(&mut input, app_id.as_str().as_bytes());
    input.push(0);
    push_bytes(&mut input, session.user_key.as_str().as_bytes());
    input.push(0);
    push_bytes(&mut input, session.session_key.as_str().as_bytes());
    assert(input@ =~= place_input(domain@, app_id@, session.user_key@, session.session_key@));
    sha256_digest(input.as_slice())
}

/// The address of an application with a digest.
pub open spec fn address_text(app: Seq<char>, digest: Seq<u8>) -> Seq<char> {
    "mutsuki.app."@ + dashed(app) + "."@ + hex_text(digest.subrange(0, 8))
}

/// The address of an application, given the digest that tells users and sessions apart.
pub fn address_with_digest(app_id: &AppId, digest: &[u8; 32]) -> (address: LocalAddress)
    ensures
        address@ == address_text(app_id@, digest@),
{
    let mut text = "mutsuki.app.".to_owned();
    push_dashed(&mut text, app_id.as_str());
    text.append(".");
    push_hex(&mut text, vstd::slice::slice_subrange(digest, 0, 8));
    assert(text@ =~= address_text(app_id@, digest@));
    LocalAddress(text)
}

/// The address of an application in a session of a user. It is the same whenever it is
/// asked for.
pub fn local_address_for_app(app_id: &AppId, session: &SessionIdentity) -> (address: LocalAddress)
    ensures
        address@ == address_text(
            app_id@,
            sha256(
                place_input(
                    "mutsuki.link.app.v1"@,
                    app_id@,
                    session.user_key@,
                    session.session_key@,
                ),
            ),
        ),
{
    let digest = place_digest("mutsuki.link.app.v1", app_id, session);
    address_with_digest(app_id, &digest)
}

/// The identity of the endpoint of an application in a session of a user.
pub fn endpoint_id_for_app(app_id: &AppId, session: &SessionIdentity) -> (endpoint: EndpointId)
    ensures
        endpoint@ == sha256(
            place_input(
                "mutsuki.link.endpoint.v1"@,
                app_id@,
                session.user_key@,
                session.session_key@,
            ),
        ).subrange(0, 16),
{
    let digest = place_digest("mutsuki.link.endpoint.v1", app_id, session);
    EndpointId::from_bytes(digest_prefix(&digest))
}

/// Who holds the place of an application.
#[derive(Clone, Debug)]
pub struct EndpointLease {
    pub app_id: AppId,
    pub instance_id: String,
    pub pid: u32,
    pub created_unix_ms: u64,
}

#[verifier::ext_equal]
pub struct LeaseView {
    pub app_id: Seq<char>,
    pub instance_id: Seq<char>,
    pub pid: u32,
    pub created_unix_ms: u64,
}

impl View for EndpointLease {
    type V = LeaseView;

    open spec fn view(&self) -> LeaseView {
        LeaseView {
            app_id: self.app_id@,
            instance_id: self.instance_id@,
            pid: self.pid,
            created_unix_ms: self.created_unix_ms,
        }
    }
}

/// The name of the file that tells who holds the place of an application.
pub fn lease_file_name(app_id: &AppId) -> (name: String)
    ensures
        name@ == dashed(app_id@) + ".lease"@,
{
    let mut name = String::new();
    push_dashed(&mut name, app_id.as_str());
    name.append(".lease");
    assert(name@ =~= dashed(app_id@) + ".lease"@);
    name
}

/// A lease as it is written: one line for each part.
pub open spec fn lease_text(lease: LeaseView) -> Seq<char> {
    lease.app_id.push('\n') + lease.instance_id.push('\n') + decimal_text(lease.pid as nat).push('\n')
        + decimal_text(lease.created_unix_ms as nat).push('\n')
}

/// The first line break at or after a place, or the end.
pub open spec fn line_end(s: Seq<char>, from: int) -> int
    decreases s.len() - from,
{
    if from < 0 || from >= s.len() {
        s.len() as int
    } else if s[from] == '\n' {
        from
    } else {
        line_end(s, from + 1)
    }
}

/// The line at a place and where the next one begins, if there is a line. A carriage
/// return before the line break is no part of the line.
pub open spec fn line_at(s: Seq<char>, from: int) -> Option<(Seq<char>, int)> {
    let end = line_end(s, from);
    if from < 0 || from >= s.len() {
        None
    } else if end < s.len() && end > from && s[end - 1] == '\r' {
        Some((s.subrange(from, end - 1), end + 1))
    } else if end < s.len() {
        Some((s.subrange(from, end), end + 1))
    } else {
        Some((s.subrange(from, end), end))
    }
}

/// Whether a text is a row of decimal digits.
pub open spec fn all_digits(s: Seq<char>) -> bool {
    s.len() > 0 && forall|i: int| 0 <= i < s.len() ==> '0' <= #[trigger] s[i] && s[i] <= '9'
}

/// The number that decimal digits tell.
pub open spec fn digits_value(s: Seq<char>) -> nat
    decreases s.len(),
{
    if s.len() == 0 {
        0
    } else {
        digits_value(s.drop_last()) * 10 + (s.last() as int - 48) as nat
    }
}

/// The digits of a number, without a sign.
pub open spec fn unsigned(s: Seq<char>) -> Seq<char> {
    if s.len() > 0 && s[0] == '+' {
        s.subrange(1, s.len() as int)
    } else {
        s
    }
}

/// The number that a text tells, if it tells one that is not too large.
pub open spec fn number_in(s: Seq<char>, most: nat) -> Option<nat> {
    let digits = unsigned(s);
    if all_digits(digits) && digits_value(digits) <= most {
        Some(digits_value(digits))
    } else {
        None
    }
}

/// The lease that a text tells, if it is one of the application.
pub open spec fn lease_in(s: Seq<char>, app: Seq<char>) -> Option<LeaseView> {
    match line_at(s, 0) {
        None => None,
        Some((name, second)) => match line_at(s, second) {
            None => None,
            Some((instance, third)) => match line_at(s, third) {
                None => None,
                Some((pid, fourth)) => match line_at(s, fourth) {
                    None => None,
                    Some((created, _)) => match (
                        number_in(pid, u32::MAX as nat),
                        number_in(created, u64::MAX as nat),
                    ) {
                        (Some(pid), Some(created)) => if name == app {
                            Some(
                                LeaseView {
                                    app_id: app,
                                    instance_id: instance,
                                    pid: pid as u32,
                                    created_unix_ms: created as u64,
                                },
                            )
                        } else {
                            None
                        },
                        _ => None,
                    },
                },
            },
        },
    }
}

/// The line at a place and where the next one begins.
fn read_line<'a>(text: &'a str, from: usize) -> (line: Option<(&'a str, usize)>)
    ensures
        match line {
            Some((line, next)) => line_at(text@, from as int) == Some((line@, next as int)),
            None => line_at(text@, from as int) is None,
        },
{
    let len: usize = text.unicode_len();
    if from >= len {
        return None;
    }
    let mut end: usize = from;
    while end < len && text.get_char(end) != '\n'
        invariant
            len == text@.len(),
            from <= end <= len,
            line_end(text@, from as int) == line_end(text@, end as int),
        decreases len - end,
    {
        end = end + 1;
    }
    if end < len && end > from && text.get_char(end - 1) == '\r' {
        Some((text.substring_char(from, end - 1), end + 1))
    } else if end < len {
        Some((text.substring_char(from, end), end + 1))
    } else {
        Some((text.substring_char(from, end), end))
    }
}

proof fn lemma_digits_grow(s: Seq<char>, i: int)
    requires
        0 <= i <= s.len(),
    ensures
        digits_value(s.subrange(0, i)) <= digits_value(s),
    decreases s.len() - i,
{
    if i == s.len() {
        assert(s.subrange(0, i) =~= s);
    } else {
        let more = s.subrange(0, i + 1);
        assert(more.drop_last() =~= s.subrange(0, i));
        lemma_digits_grow(s, i + 1);
    }
}

/// The number that a text tells.
fn read_number(text: &str, most: u64) -> (number: Option<u64>)
    ensures
        match number {
            Some(n) => number_in(text@, most as nat) == Some(n as nat),
            None => number_in(text@, most as nat) is None,
        },
{
    let len: usize = text.unicode_len();
    let start: usize = if len > 0 && text.get_char(0) == '+' {
        1
    } else {
        0
    };
    let ghost digits = unsigned(text@);
    assert(digits =~= text@.subrange(start as int, len as int));
    if start == len {
        return None;
    }
    let mut value: u64 = 0;
    let mut i: usize = start;
    assert(digits.subrange(0, 0) =~= Seq::empty());
    while i < len
        invariant
            len == text@.len(),
            start <= i <= len,
            digits == text@.subrange(start as int, len as int),
            digits == unsigned(text@),
            digits.len() == len - start,
            value <= most,
            value == digits_value(digits.subrange(0, i - start)),
            forall|j: int|
                0 <= j < i - start ==> '0' <= #[trigger] digits[j] && digits[j] <= '9',
        decreases len - i,
    {
        let c = text.get_char(i);
        assert(c == digits[i - start]);
        if c < '0' || c > '9' {
            return None;
        }
        let digit: u64 = (c as u32 - 48) as u64;
        proof {
            let some = digits.subrange(0, i - start);
            let more = digits.subrange(0, i + 1 - start);
            assert(more.drop_last() =~= some);
            assert(more.last() == c);
            assert(digits_value(more) == digits_value(some) * 10 + digit);
            lemma_digits_grow(digits, i + 1 - start);
        }
        if value > most / 10 || digit > most - value * 10 {
            return None;
        }
        value = value * 10 + digit;
        i = i + 1;
    }
    assert(digits.subrange(0, len - start) =~= digits);
    Some(value)
}

impl EndpointLease {
    /// The lease as it is written.
    pub fn to_text(&self) -> (text: String)
        ensures
            text@ == lease_text(self@),
    {
        proof {
            reveal_strlit("\n");
            assert("\n"@ =~= seq!['\n']);
        }
        let mut text = String::new();
        text.append(self.app_id.as_str());
        text.append("\n");
        text.append(self.instance_id.as_str());
        text.append("\n");
        push_decimal(&mut text, self.pid as u64);
        text.append("\n");
        push_decimal(&mut text, self.created_unix_ms);
        text.append("\n");
        assert(text@ =~= lease_text(self@));
        text
    }

    /// Reads a lease of an application.
    pub fn from_text(text: &str, app_id: &AppId) -> (lease: Option<Self>)
        ensures
            match lease {
                Some(l) => lease_in(text@, app_id@) == Some(l@),
                None => lease_in(text@, app_id@) is None,
            },
    {
        let (name, second) = match read_line(text, 0) {
            Some(line) => line,
            None => {
                return None;
            },
        };
        let (instance, third) = match read_line(text, second) {
            Some(line) => line,
            None => {
                return None;
            },
        };
        let (pid_line, fourth) = match read_line(text, third) {
            Some(line) => line,
            None => {
                return None;
            },
        };
        let pid: u64 = match read_number(pid_line, 0xffff_ffff) {
            Some(pid) => pid,
            None => {
                return None;
            },
        };
        let (created_line, end) = match read_line(text, fourth) {
            Some(line) => line,
            None => {
                return None;
            },
        };
        let created_unix_ms: u64 = match read_number(created_line, 0xffff_ffff_ffff_ffff) {
            Some(created) => created,
            None => {
                return None;
            },
        };
        if !text_equal(name, app_id.as_str()) {
            return None;
        }
        Some(
            EndpointLease {
                app_id: app_id.clone(),
                instance_id: instance.to_owned(),
                pid: pid as u32,
                created_unix_ms,
            },
        )
    }

    /// Whether the lease may be taken over: its holder does not run any more. How old
    /// the lease is does not matter. Process zero is none.
    pub fn is_stale(&self, process_found: bool) -> (stale: bool)
        ensures
            stale == (self@.pid == 0 || !process_found),
    {
        self.pid == 0 || !process_found
    }
}

/// Where a system that shows processes as files shows one.
pub fn process_path(pid: u32) -> (path: String)
    ensures
        path@ == "/proc/"@ + decimal_text(pid as nat),
{
    let mut path = "/proc/".to_owned();
    push_decimal(&mut path, pid as u64);
    path
}

/// Whether some bytes stand at a place of others.
pub open spec fn stands_at(bytes: Seq<u8>, part: Seq<u8>, i: int) -> bool {
    0 <= i && i + part.len() <= bytes.len() && bytes.subrange(i, i + part.len()) == part
}

/// Whether a list of processes, as a system prints it, has the number of one.
pub fn lists_process(listing: &[u8], pid: u32) -> (listed: bool)
    ensures
        listed == exists|i: int| stands_at(listing@, encode_utf8(decimal_text(pid as nat)), i),
{
    let mut number = String::new();
    push_decimal(&mut number, pid as u64);
    assert(number@ =~= decimal_text(pid as nat));
    let part = number.as_str().as_bytes();
    let mut i: usize = 0;
    while part.len() <= listing.len() && i <= listing.len() - part.len()
        invariant
            part@ == encode_utf8(decimal_text(pid as nat)),
            i <= listing@.len() + 1,
            forall|j: int| 0 <= j < i ==> !#[trigger] stands_at(listing@, part@, j),
        decreases listing@.len() + 1 - i,
    {
        if bytes_equal(vstd::slice::slice_subrange(listing, i, i + part.len()), part) {
            assert(stands_at(listing@, part@, i as int));
            return true;
        }
        i = i + 1;
    }
    false
}

/// Whether a lease is cleared for a new holder.
pub fn reclaims(lease: &Option<EndpointLease>, process_found: bool) -> (reclaims: bool)
    ensures
        reclaims == (lease matches Some(l) && (l@.pid == 0 || !process_found)),
{
    match lease {
        Some(lease) => lease.is_stale(process_found),
        None => false,
    }
}

proof fn lemma_decimal(n: nat)
    ensures
        all_digits(decimal_text(n)),
        digits_value(decimal_text(n)) == n,
    decreases n,
{
    let text = decimal_text(n);
    if n < 10 {
        assert(text[0] == decimal_digit(n as int));
        assert(text.drop_last() =~= Seq::empty());
        assert(digits_value(text.drop_last()) == 0);
        assert(text.last() == decimal_digit(n as int));
    } else {
        lemma_decimal(n / 10);
        assert(text.drop_last() =~= decimal_text(n / 10));
        assert(text.last() == decimal_digit((n % 10) as int));
        assert forall|i: int| 0 <= i < text.len() implies '0' <= #[trigger] text[i] && text[i] <= '9' by {
            if i < text.len() - 1 {
                assert(text[i] == decimal_text(n / 10)[i]);
            }
        }
    }
}

/// A line that is written is read back.
proof fn lemma_line(before: Seq<char>, line: Seq<char>, after: Seq<char>)
    requires
        forall|i: int| 0 <= i < line.len() ==> #[trigger] line[i] != '\n',
        line.len() == 0 || line.last() != '\r',
    ensures
        line_at(before + line.push('\n') + after, before.len() as int) == Some(
            (line, (before.len() + line.len() + 1) as int),
        ),
{
    let s = before + line.push('\n') + after;
    lemma_line_end(s, before.len() as int, line.len() as int);
    assert(s.subrange(before.len() as int, (before.len() + line.len()) as int) =~= line);
}

proof fn lemma_line_end(s: Seq<char>, from: int, len: int)
    requires
        0 <= from,
        0 <= len,
        from + len < s.len(),
        s[from + len] == '\n',
        forall|i: int| from <= i < from + len ==> #[trigger] s[i] != '\n',
    ensures
        line_end(s, from) == from + len,
    decreases len,
{
    if len > 0 {
        lemma_line_end(s, from + 1, len - 1);
    }
}

/// A lease that was written is read back, if the name of its instance is a single line
/// that does not end in a carriage return.
pub proof fn leases_round_trip(lease: LeaseView)
    requires
        is_app_text(lease.app_id),
        forall|i: int| 0 <= i < lease.instance_id.len() ==> #[trigger] lease.instance_id[i] != '\n',
        lease.instance_id.len() == 0 || lease.instance_id.last() != '\r',
    ensures
        lease_in(lease_text(lease), lease.app_id) == Some(lease),
{
    let s = lease_text(lease);
    let (app, instance) = (lease.app_id, lease.instance_id);
    let (pid, created) = (
        decimal_text(lease.pid as nat),
        decimal_text(lease.created_unix_ms as nat),
    );
    let (a, b, c) = (app.len() as int, instance.len() as int, pid.len() as int);
    lemma_decimal(lease.pid as nat);
    lemma_decimal(lease.created_unix_ms as nat);
    assert(line_at(s, 0) == Some((app, a + 1))) by {
        let after = instance.push('\n') + pid.push('\n') + created.push('\n');
        assert(s =~= Seq::empty() + app.push('\n') + after);
        lemma_line(Seq::empty(), app, after);
    }
    assert(line_at(s, a + 1) == Some((instance, a + b + 2))) by {
        let before = app.push('\n');
        let after = pid.push('\n') + created.push('\n');
        assert(s =~= before + instance.push('\n') + after);
        lemma_line(before, instance, after);
    }
    assert(line_at(s, a + b + 2) == Some((pid, a + b + c + 3))) by {
        let before = app.push('\n') + instance.push('\n');
        assert(s =~= before + pid.push('\n') + created.push('\n'));
        lemma_line(before, pid, created.push('\n'));
    }
    assert(line_at(s, a + b + c + 3) == Some((created, s.len() as int))) by {
        let before = app.push('\n') + instance.push('\n') + pid.push('\n');
        assert(s =~= before + created.push('\n') + Seq::empty());
        lemma_line(before, created, Seq::empty());
    }
    assert(number_in(pid, u32::MAX as nat) == Some(lease.pid as nat)) by {
        assert(pid[0] != '+');
    }
    assert(number_in(created, u64::MAX as nat) == Some(lease.created_unix_ms as nat)) by {
        assert(created[0] != '+');
    }
}

/// A place of one kind is never derived from the bytes of the other.
pub proof fn places_have_domains_of_their_own(app: Seq<char>, user: Seq<char>, session: Seq<char>)
    ensures
        place_input("mutsuki.link.app.v1"@, app, user, session) != place_input(
            "mutsuki.link.endpoint.v1"@,
            app,
            user,
            session,
        ),
{
    let a = "mutsuki.link.app.v1"@;
    let b = "mutsuki.link.endpoint.v1"@;
    reveal_strlit("mutsuki.link.app.v1");
    reveal_strlit("mutsuki.link.endpoint.v1");
    assert(vstd::utf8::is_ascii_chars(a));
    assert(vstd::utf8::is_ascii_chars(b));
    vstd::utf8::is_ascii_chars_encode_utf8(a);
    vstd::utf8::is_ascii_chars_encode_utf8(b);
    assert(encode_utf8(a).len() != encode_utf8(b).len());
    let x = place_input(a, app, user, session);
    let y = place_input(b, app, user, session);
    assert(x.len() != y.len());
}

/// The name of an application has letters, digits, dots, dashes and underscores, and at
/// least one of them.
pub proof fn application_names_are_plain(s: Seq<char>, i: int)
    ensures
        s.len() == 0 ==> !is_app_text(s),
        is_app_text(s) && 0 <= i < s.len() ==> ('a' <= s[i] <= 'z') || ('A' <= s[i] <= 'Z') || ('0'
            <= s[i] <= '9') || s[i] == '.' || s[i] == '-' || s[i] == '_',
        0 <= i < s.len() && !('a' <= s[i] <= 'z') && !('A' <= s[i] <= 'Z') && !('0' <= s[i] <= '9')
            && s[i] != '.' && s[i] != '-' && s[i] != '_' ==> !is_app_text(s),
        s.len() > 0 && (forall|j: int|
            0 <= j < s.len() ==> ('a' <= #[trigger] s[j] <= 'z') || ('A' <= s[j] <= 'Z') || ('0' <= s[j]
                <= '9') || s[j] == '.' || s[j] == '-' || s[j] == '_') ==> is_app_text(s),
{
    if s.len() > 0 && (forall|j: int|
        0 <= j < s.len() ==> ('a' <= #[trigger] s[j] <= 'z') || ('A' <= s[j] <= 'Z') || ('0' <= s[j]
            <= '9') || s[j] == '.' || s[j] == '-' || s[j] == '_') {
        assert forall|j: int| 0 <= j < s.len() implies app_char(#[trigger] s[j]) by {}
    }
}

/// Dots become dashes in a place; nothing else changes.
pub proof fn dots_become_dashes(text: Seq<char>, i: int)
    requires
        0 <= i < text.len(),
    ensures
        dashed(text).len() == text.len(),
        text[i] == '.' ==> dashed(text)[i] == '-',
        text[i] != '.' ==> dashed(text)[i] == text[i],
{
}

/// The address of an application shows its name and sixteen hexadecimal digits, of the first
/// eight bytes of the digest.
pub proof fn addresses_show_the_application(app: Seq<char>, digest: Seq<u8>)
    requires
        digest.len() == 32,
    ensures
        ({
            let text = address_text(app, digest);
            &&& text.len() == 12 + app.len() + 1 + 16
            &&& text.subrange(0, 12) == "mutsuki.app."@
            &&& text.subrange(12, 12 + app.len() as int) == dashed(app)
            &&& text[12 + app.len() as int] == '.'
            &&& text.skip(13 + app.len() as int) == hex_text(digest.subrange(0, 8))
        }),
{
    reveal_strlit("mutsuki.app.");
    reveal_strlit(".");
    let text = address_text(app, digest);
    assert(text.subrange(0, 12) =~= "mutsuki.app."@);
    assert(text.subrange(12, 12 + app.len() as int) =~= dashed(app));
    assert(text.skip(13 + app.len() as int) =~= hex_text(digest.subrange(0, 8)));
}

/// A lease is read for its own application alone, and only where its numbers are numbers
/// that fit.
pub proof fn leases_are_read_for_their_application(s: Seq<char>, app: Seq<char>)
    ensures
        lease_in(s, app) matches Some(lease) ==> lease.app_id == app,
        (line_at(s, 0) matches Some((name, _)) ==> name != app) ==> lease_in(s, app) is None,
        s.len() == 0 ==> lease_in(s, app) is None,
{
}

/// A number is read from its digits, the most significant first and after a plus sign at
/// most, where it is no greater than it may be.
pub proof fn numbers_are_read_from_their_digits(digits: Seq<char>, last: char, most: nat)
    requires
        all_digits(digits),
        '0' <= last <= '9',
    ensures
        digits_value(digits.push(last)) == 10 * digits_value(digits) + (last as int - '0' as int),
        all_digits(digits.push(last)),
        digits_value(digits) <= most ==> number_in(digits, most) == Some(digits_value(digits)),
        digits_value(digits) > most ==> number_in(digits, most) is None,
        number_in(seq!['+'] + digits, most) == number_in(digits, most),
        number_in(Seq::empty(), most) is None,
        number_in(digits.push('-'), most) is None,
{
    assert(digits.push(last).drop_last() =~= digits);
    assert forall|i: int| 0 <= i < digits.push(last).len() implies '0' <= #[trigger] digits.push(last)[i]
        && digits.push(last)[i] <= '9' by {
        if i < digits.len() {
            assert(digits.push(last)[i] == digits[i]);
        }
    }
    assert('0' <= digits[0]);
    let signed = seq!['+'] + digits;
    assert(signed.subrange(1, signed.len() as int) =~= digits);
    assert(unsigned(digits) == digits);
    let bad = digits.push('-');
    assert(bad[0] == digits[0]);
    assert(bad[bad.len() - 1] == '-');
}

/// A part stands at a place of a row where its bytes follow one another there.
pub proof fn parts_stand_where_their_bytes_are(bytes: Seq<u8>, part: Seq<u8>, i: int)
    ensures
        stands_at(bytes, part, i) <==> {
            &&& 0 <= i
            &&& i + part.len() <= bytes.len()
            &&& forall|j: int| 0 <= j < part.len() ==> bytes[i + j] == #[trigger] part[j]
        },
{
    if 0 <= i && i + part.len() <= bytes.len() {
        let there = bytes.subrange(i, i + part.len());
        if there == part {
            assert forall|j: int| 0 <= j < part.len() implies bytes[i + j] == #[trigger] part[j] by {
                assert(there[j] == bytes[i + j]);
            }
        }
        if (forall|j: int| 0 <= j < part.len() ==> bytes[i + j] == #[trigger] part[j]) {
            assert(there =~= part);
        }
    }
}

/// A lease is stale where it names no process, or one that was not found; only a stale
/// lease is taken over.
pub proof fn stale_leases_are_reclaimed(lease: EndpointLease, process_found: bool)
    ensures
        forall|stale: bool| #[trigger]
            call_ensures(EndpointLease::is_stale, (&lease, process_found), stale) ==> {
                &&& lease@.pid == 0 ==> stale
                &&& !process_found ==> stale
                &&& lease@.pid != 0 && process_found ==> !stale
            },
        forall|stale: bool, taken: bool|
            {
                &&& #[trigger] call_ensures(EndpointLease::is_stale, (&lease, process_found), stale)
                &&& #[trigger] call_ensures(reclaims, (&Some(lease), process_found), taken)
            } ==> (taken <==> stale),
        forall|taken: bool| #[trigger]
            call_ensures(reclaims, (&None::<EndpointLease>, process_found), taken) ==> !taken,
{
}

/// A capability is offered under its own name and in its own versions, and under no other,
/// and only while it is ready.
pub proof fn capabilities_are_offered_as_they_are(
    offer: CapabilityOffer,
    name: Seq<char>,
    protocol_version: u32,
    schema_version: u32,
)
    ensures
        offer.ready ==> offers(
            offer,
            offer.name@,
            offer.protocol_version,
            offer.schema_version,
        ),
        offers(offer, name, protocol_version, schema_version) ==> {
            &&& offer.ready
            &&& name == offer.name@
            &&& protocol_version == offer.protocol_version
            &&& schema_version == offer.schema_version
        },
{
}

/// A session goes by the first of the names that the environment gives it, for its user and
/// for itself; the second counts only where there is no first.
pub proof fn sessions_go_by_the_first_name(
    user: Option<String>,
    username: Option<String>,
    xdg_session: Option<String>,
    session_name: Option<String>,
    process: u32,
)
    ensures
        forall|identity: SessionIdentity| #[trigger]
            call_ensures(
                SessionIdentity::from_environment,
                (user, username, xdg_session, session_name, process),
                identity,
            ) ==> {
                &&& user is Some ==> identity.user_key@ == user->0@
                &&& user is None && username is Some ==> identity.user_key@ == username->0@
                &&& user is None && username is None ==> identity.user_key@ == "local-user"@
                &&& xdg_session is Some ==> identity.session_key@ == xdg_session->0@
                &&& xdg_session is None && session_name is Some ==> identity.session_key@
                    == session_name->0@
                &&& xdg_session is None && session_name is None ==> identity.session_key@ == "pid-"@
                    + decimal_text(process as nat)
            },
{
}

} // verus!
