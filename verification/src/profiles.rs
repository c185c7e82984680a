//! Connection profiles: how they are named, imported and listed.

use vstd::prelude::*;

use zeroize::Zeroize;

use crate::connection::Desktop;
use crate::error::ClientError;
use crate::ip::SocketAddr;
use crate::order::SortKey;
use crate::{error, order, text};

verus! {

/// How the tunnel looks on the wire.
#[derive(Clone, Copy, Debug, PartialEq, Eq, Structural)]
pub enum ClientProtocol {
    Legacy,
    MorphQuiet,
    MorphBalanced,
    MorphParanoid,
}

impl Default for ClientProtocol {
    fn default() -> (protocol: ClientProtocol)
        ensures
            protocol is Legacy,
    {
        ClientProtocol::Legacy
    }
}

/// A profile as it is stored.
#[derive(Debug)]
pub struct StoredProfile {
    pub id: String,
    pub name: String,
    pub server: String,
    pub server_public_key: String,
    pub client_private_key: String,
    pub tun_name: String,
    pub protocol: ClientProtocol,
}

/// What is shown of a profile.
#[derive(Debug)]
pub struct ProfileSummary {
    pub id: String,
    pub name: String,
    pub endpoint: String,
    pub protocol: ClientProtocol,
}

/// What is shown of a profile, as plain texts.
#[verifier::ext_equal]
pub struct SummaryModel {
    pub id: Seq<char>,
    pub name: Seq<char>,
    pub endpoint: Seq<char>,
    pub protocol: ClientProtocol,
}

impl View for ProfileSummary {
    type V = SummaryModel;

    open spec fn view(&self) -> SummaryModel {
        SummaryModel {
            id: self.id@,
            name: self.name@,
            endpoint: self.endpoint@,
            protocol: self.protocol,
        }
    }
}

impl StoredProfile {
    /// What is shown of the profile. The keys are not.
    pub fn summary(&self) -> (summary: ProfileSummary)
        ensures
            summary@ == (SummaryModel {
                id: self.id@,
                name: self.name@,
                endpoint: self.server@,
                protocol: self.protocol,
            }),
    {
        ProfileSummary {
            id: self.id.clone(),
            name: self.name.clone(),
            endpoint: self.server.clone(),
            protocol: self.protocol,
        }
    }
}

/// What a session is configured with.
#[derive(Debug)]
pub struct ClientConfig {
    pub server: SocketAddr,
    pub server_public_key: String,
    pub client_private_key: String,
    pub tun_name: String,
    pub protocol: ClientProtocol,
}

impl StoredProfile {
    /// The configuration of the profile, given how its server reads as an
    /// address.
    ///
    /// # Errors
    ///
    /// Returns an error when the server is no address.
    pub fn client_config(&self, server: Result<SocketAddr, String>) -> (result: Result<
        ClientConfig,
        String,
    >)
        ensures
            match server {
                Ok(address) => {
                    &&& result matches Ok(config)
                    &&& config.server == address
                    &&& config.server_public_key@ == self.server_public_key@
                    &&& config.client_private_key@ == self.client_private_key@
                    &&& config.tun_name@ == self.tun_name@
                    &&& config.protocol == self.protocol
                },
                Err(detail) => result matches Err(message) && message@
                    == "Неверный адрес сервера: "@ + detail@,
            },
    {
        match server {
            Ok(server) => Ok(
                ClientConfig {
                    server,
                    server_public_key: self.server_public_key.clone(),
                    client_private_key: self.client_private_key.clone(),
                    tun_name: self.tun_name.clone(),
                    protocol: self.protocol,
                },
            ),
            Err(detail) => Err(String::from_str("Неверный адрес сервера: ").concat(detail.as_str())),
        }
    }
}

// Identifiers

pub open spec fn is_hex(c: char) -> bool {
    '0' <= c <= '9' || 'a' <= c <= 'f' || 'A' <= c <= 'F'
}

pub open spec fn is_hyphen_position(i: int) -> bool {
    i == 8 || i == 13 || i == 18 || i == 23
}

/// Whether `s` is a UUID in groups of eight, four, four, four and twelve
/// hexadecimal digits.
pub open spec fn is_hyphenated(s: Seq<char>) -> bool {
    &&& s.len() == 36
    &&& forall|i: int|
        0 <= i < 36 ==> if is_hyphen_position(i) {
            #[trigger] s[i] == '-'
        } else {
            is_hex(s[i])
        }
}

/// A UUID in groups, from its digits without hyphens.
pub open spec fn with_hyphens(digits: Seq<char>) -> Seq<char> {
    digits.subrange(0, 8) + seq!['-'] + digits.subrange(8, 12) + seq!['-'] + digits.subrange(12, 16)
        + seq!['-'] + digits.subrange(16, 20) + seq!['-'] + digits.subrange(20, 32)
}

/// The UUID that `s` denotes, in groups: as digits without hyphens, in groups,
/// in groups within braces, or in groups as a URN.
pub open spec fn uuid_groups(s: Seq<char>) -> Option<Seq<char>> {
    if s.len() == 32 && (forall|i: int| 0 <= i < 32 ==> is_hex(#[trigger] s[i])) {
        Some(with_hyphens(s))
    } else if is_hyphenated(s) {
        Some(s)
    } else if s.len() == 38 && s[0] == '{' && s[37] == '}' && is_hyphenated(s.subrange(1, 37)) {
        Some(s.subrange(1, 37))
    } else if s.len() == 45 && text::same_ignoring_ascii_case(s.subrange(0, 9), "urn:uuid:"@)
        && is_hyphenated(s.subrange(9, 45)) {
        Some(s.subrange(9, 45))
    } else {
        None
    }
}

/// The UUID that `s` denotes, in groups of lowercase digits.
pub open spec fn uuid_text(s: Seq<char>) -> Option<Seq<char>> {
    match uuid_groups(s) {
        Some(groups) => Some(text::ascii_lower(groups)),
        None => None,
    }
}

/// Calls `Uuid::parse_str` and writes the UUID with its `Display`
/// implementation. The parser accepts hexadecimal digits of either case, plain,
/// in groups, in braces or as a URN, and nothing else; what is written is in
/// groups of lowercase digits.
#[verifier::external_body]
fn parsed_uuid(id: &str) -> (canonical: Option<String>)
    ensures
        match uuid_text(id@) {
            Some(text) => canonical matches Some(c) && c@ == text,
            None => canonical is None,
        },
{
    uuid::Uuid::parse_str(id).ok().map(|value| value.to_string())
}

/// Whether `s` is a random UUID in groups of lowercase digits.
pub open spec fn is_random_uuid(s: Seq<char>) -> bool {
    &&& is_hyphenated(s)
    &&& text::ascii_lower(s) == s
    &&& s[14] == '4'
    &&& s[19] == '8' || s[19] == '9' || s[19] == 'a' || s[19] == 'b'
}

/// Octet `i` of the UUID that sixteen random octets make: the version and the
/// variant replace the bits that stand for them.
pub open spec fn uuid_octet(bytes: Seq<u8>, i: int) -> nat {
    if i == 6 {
        0x40 + bytes[6] as nat % 16
    } else if i == 8 {
        0x80 + bytes[8] as nat % 64
    } else {
        bytes[i] as nat
    }
}

/// The UUID that sixteen random octets make, in groups of lowercase digits.
pub open spec fn random_uuid(bytes: Seq<u8>) -> Seq<char> {
    with_hyphens(
        Seq::new(
            32,
            |i: int|
                text::hex_char(
                    if i % 2 == 0 {
                        uuid_octet(bytes, i / 2) / 16
                    } else {
                        uuid_octet(bytes, i / 2) % 16
                    },
                ),
        ),
    )
}

/// Sixteen octets always make a random UUID.
pub proof fn drawn_identifiers_are_random_uuids(bytes: Seq<u8>)
    requires
        bytes.len() == 16,
    ensures
        is_random_uuid(random_uuid(bytes)),
{
    let digits = Seq::new(
        32,
        |i: int|
            text::hex_char(
                if i % 2 == 0 {
                    uuid_octet(bytes, i / 2) / 16
                } else {
                    uuid_octet(bytes, i / 2) % 16
                },
            ),
    );
    let groups = with_hyphens(digits);
    assert(random_uuid(bytes) == groups);
    assert(uuid_groups(digits) == Some(groups));
    lemma_groups(digits);
    assert forall|i: int| 0 <= i < 36 implies text::ascii_lower_char(#[trigger] groups[i])
        == groups[i] by {
        let digit = if i < 8 {
            i
        } else if i < 13 {
            i - 1
        } else if i < 18 {
            i - 2
        } else if i < 23 {
            i - 3
        } else {
            i - 4
        };
        if is_hyphen_position(i) {
            assert(groups[i] == '-');
        } else {
            assert(groups[i] == digits[digit]);
        }
    }
    assert(text::ascii_lower(groups) =~= groups);
    assert(groups[14] == digits[12]);
    assert(groups[19] == digits[16]);
    assert(uuid_octet(bytes, 6) / 16 == 4);
    assert(8 <= uuid_octet(bytes, 8) / 16 < 12);
}

/// Calls `getrandom::fill`, which fills `bytes` from the random source of the
/// system or reports why it could not. What comes out is a matter of chance, so
/// nothing is claimed of it.
#[verifier::external_body]
fn fill_random(bytes: &mut [u8; 16]) -> (result: Result<(), getrandom::Error>) {
    getrandom::fill(bytes)
}

/// Calls `Builder::from_random_bytes` and writes the UUID with its `Display`
/// implementation: the octets in groups of lowercase digits, with the version
/// set to four and the variant to the standard one.
#[verifier::external_body]
fn uuid_of(bytes: [u8; 16]) -> (id: String)
    ensures
        id@ == random_uuid(bytes@),
{
    uuid::Builder::from_random_bytes(bytes).into_uuid().to_string()
}

/// The identifier that sixteen random octets make.
pub fn identifier_of(bytes: [u8; 16]) -> (id: String)
    ensures
        id@ == random_uuid(bytes@),
        is_random_uuid(id@),
{
    proof {
        drawn_identifiers_are_random_uuids(bytes@);
    }
    uuid_of(bytes)
}

/// Whether `error` is a failure of the random source.
pub open spec fn is_random_failure(error: ClientError) -> bool {
    exists|detail: Seq<char>|
        #[trigger] error::is_platform(error, "secure random generator failed: "@ + detail)
}

/// A random identifier.
///
/// # Errors
///
/// Returns an error when the system has no random numbers to give.
pub fn drawn_identifier() -> (result: Result<String, ClientError>)
    ensures
        match result {
            Ok(id) => is_random_uuid(id@),
            Err(error) => is_random_failure(error),
        },
{
    let mut bytes: [u8; 16] = [0;16];
    match fill_random(&mut bytes) {
        Ok(()) => Ok(identifier_of(bytes)),
        Err(error) => Err(ClientError::from_random_source(&error)),
    }
}

/// The canonical form of the identifier of a profile.
///
/// # Errors
///
/// Returns an error when `id` is not a UUID.
pub fn normalized_id(id: &str) -> (result: Result<String, String>)
    ensures
        match uuid_text(id@) {
            Some(text) => result matches Ok(canonical) && canonical@ == text,
            None => result matches Err(message) && message@ == "Неверный идентификатор профиля"@,
        },
{
    match parsed_uuid(id) {
        Some(canonical) => Ok(canonical),
        None => Err(text::owned("Неверный идентификатор профиля")),
    }
}

/// The name of the file that holds a profile.
pub open spec fn profile_file(id: Seq<char>) -> Option<Seq<char>> {
    match uuid_text(id) {
        Some(text) => Some(text + ".toml"@),
        None => None,
    }
}

/// The name of the file that holds the profile `id`.
///
/// # Errors
///
/// Returns an error when `id` is not a UUID.
pub fn profile_file_name(id: &str) -> (result: Result<String, String>)
    ensures
        match profile_file(id@) {
            Some(name) => result matches Ok(n) && n@ == name,
            None => result matches Err(message) && message@ == "Неверный идентификатор профиля"@,
        },
{
    match normalized_id(id) {
        Ok(canonical) => {
            let mut name = canonical;
            name.append(".toml");
            Ok(name)
        },
        Err(message) => Err(message),
    }
}

/// The extension of a file that is written before it replaces another. It is
/// random, so that two such files do not meet.
///
/// # Errors
///
/// Returns an error when the system has no random numbers to give.
pub fn temporary_extension() -> (result: Result<String, ClientError>)
    ensures
        match result {
            Ok(extension) => exists|id: Seq<char>| #[trigger]
                is_random_uuid(id) && extension@ == "tmp-"@ + id,
            Err(error) => is_random_failure(error),
        },
{
    match drawn_identifier() {
        Ok(id) => {
            let mut extension = text::owned("tmp-");
            extension.append(id.as_str());
            assert(is_random_uuid(id@));
            Ok(extension)
        },
        Err(error) => Err(error),
    }
}

proof fn lemma_groups(s: Seq<char>)
    requires
        uuid_groups(s) is Some,
    ensures
        is_hyphenated(uuid_groups(s)->0),
        is_hyphenated(uuid_text(s)->0),
{
    let groups = uuid_groups(s)->0;
    let lower = uuid_text(s)->0;
    assert(is_hyphenated(groups)) by {
        if s.len() == 32 {
            assert forall|i: int| 0 <= i < 36 implies if is_hyphen_position(i) {
                #[trigger] groups[i] == '-'
            } else {
                is_hex(groups[i])
            } by {
                let digit = if i < 8 {
                    i
                } else if i < 13 {
                    i - 1
                } else if i < 18 {
                    i - 2
                } else if i < 23 {
                    i - 3
                } else {
                    i - 4
                };
                if !is_hyphen_position(i) {
                    assert(is_hex(s[digit]));
                    assert(groups[i] == s[digit]);
                }
            }
        }
    }
    assert forall|i: int| 0 <= i < 36 implies if is_hyphen_position(i) {
        #[trigger] lower[i] == '-'
    } else {
        is_hex(lower[i])
    } by {
        assert(lower[i] == text::ascii_lower_char(groups[i]));
        if is_hyphen_position(i) {
            assert(groups[i] == '-');
        } else {
            assert(is_hex(groups[i]));
        }
    }
}

proof fn lemma_lower_twice(s: Seq<char>)
    ensures
        text::ascii_lower(text::ascii_lower(s)) == text::ascii_lower(s),
{
    assert(text::ascii_lower(text::ascii_lower(s)) =~= text::ascii_lower(s));
}

/// The canonical form of an identifier is its own canonical form, so whatever
/// way a profile is named, the name leads to the same file.
pub proof fn canonical_identifiers_are_fixed(id: Seq<char>)
    requires
        uuid_text(id) is Some,
    ensures
        uuid_text(uuid_text(id)->0) == uuid_text(id),
        profile_file(uuid_text(id)->0) == profile_file(id),
{
    lemma_groups(id);
    let canonical = uuid_text(id)->0;
    assert(canonical.len() == 36);
    lemma_lower_twice(uuid_groups(id)->0);
}

/// The file of a profile lies in the directory of the profiles: its name holds
/// no separator and no character that leads elsewhere.
pub proof fn a_profile_file_is_a_plain_name(id: Seq<char>, i: int)
    requires
        profile_file(id) is Some,
        0 <= i < profile_file(id)->0.len(),
    ensures
        ({
            let c = profile_file(id)->0[i];
            &&& c != '/' && c != '\\' && c != ':'
            &&& c == '.' ==> i == 36
        }),
{
    lemma_groups(id);
    let canonical = uuid_text(id)->0;
    reveal_strlit(".toml");
    if i < 36 {
        assert(profile_file(id)->0[i] == canonical[i]);
        if is_hyphen_position(i) {
            assert(canonical[i] == '-');
        } else {
            assert(is_hex(canonical[i]));
        }
    } else {
        assert(profile_file(id)->0[i] == ".toml"@[i - 36]);
    }
}

// Importing

/// The parts of a profile that was decrypted.
#[derive(Debug)]
pub struct PortableProfile {
    pub id: String,
    pub name: String,
    pub endpoint: String,
    pub server_public_key: String,
    pub client_private_key: String,
}

/// The name of the network interface of a new profile.
pub open spec fn interface_name(desktop: Desktop) -> Seq<char> {
    match desktop {
        Desktop::Windows => "MouseVPN"@,
        Desktop::Linux => "mousevpn0"@,
    }
}

/// Whether `profile` is `portable` under the identifier `id`.
pub open spec fn is_imported(
    profile: StoredProfile,
    portable: PortableProfile,
    id: Seq<char>,
    desktop: Desktop,
) -> bool {
    &&& profile.id@ == id
    &&& profile.name@ == text::trim(portable.name@)
    &&& profile.server@ == text::trim(portable.endpoint@)
    &&& profile.server_public_key@ == portable.server_public_key@
    &&& profile.client_private_key@ == portable.client_private_key@
    &&& profile.tun_name@ == interface_name(desktop)
    &&& profile.protocol is Legacy
}

/// Refuses a profile whose name is blank.
fn check_name(name: &str) -> (result: Result<(), String>)
    ensures
        result is Err <==> text::trim(name@).len() == 0,
        result matches Err(message) ==> message@ == "В конфигурации отсутствует название"@,
{
    if text::trimmed(name).unicode_len() == 0 {
        Err(text::owned("В конфигурации отсутствует название"))
    } else {
        Ok(())
    }
}

/// The profile that `portable` becomes under the identifier `id`.
///
/// # Errors
///
/// Returns an error when the profile has no name.
pub fn imported(portable: PortableProfile, id: String, desktop: Desktop) -> (result: Result<
    StoredProfile,
    String,
>)
    ensures
        if text::trim(portable.name@).len() == 0 {
            result matches Err(message) && message@ == "В конфигурации отсутствует название"@
        } else {
            result matches Ok(profile) && is_imported(profile, portable, id@, desktop)
        },
{
    if let Err(message) = check_name(portable.name.as_str()) {
        return Err(message);
    }
    Ok(
        StoredProfile {
            id,
            name: text::trimmed(portable.name.as_str()),
            server: text::trimmed(portable.endpoint.as_str()),
            server_public_key: portable.server_public_key,
            client_private_key: portable.client_private_key,
            tun_name: match desktop {
                Desktop::Windows => text::owned("MouseVPN"),
                Desktop::Linux => text::owned("mousevpn0"),
            },
            protocol: ClientProtocol::Legacy,
        },
    )
}

/// Calls `Zeroize::zeroize` on a `String`, which overwrites the text and leaves
/// the string empty. That the memory is overwritten is not stated.
#[verifier::external_body]
fn erase(secret: &mut String)
    ensures
        final(secret)@.len() == 0,
{
    secret.zeroize();
}

/// Takes over a profile that was decrypted with `password`, or reports why it
/// could not be. The password is erased either way.
///
/// A profile that does not carry a UUID gets a random one.
///
/// # Errors
///
/// Returns the error of the decryption, or an error when the profile has no
/// name, or when it has no UUID and the system no random numbers to give.
pub fn import(
    decrypted: Result<PortableProfile, String>,
    password: &mut String,
    desktop: Desktop,
) -> (result: Result<StoredProfile, String>)
    ensures
        final(password)@.len() == 0,
        match decrypted {
            Err(detail) => result matches Err(message) && message@ == detail@,
            Ok(portable) => if text::trim(portable.name@).len() == 0 {
                result matches Err(message) && message@ == "В конфигурации отсутствует название"@
            } else {
                match uuid_text(portable.id@) {
                    Some(id) => result matches Ok(profile) && is_imported(
                        profile,
                        portable,
                        id,
                        desktop,
                    ),
                    None => match result {
                        Ok(profile) => is_random_uuid(profile.id@) && is_imported(
                            profile,
                            portable,
                            profile.id@,
                            desktop,
                        ),
                        Err(message) => exists|detail: Seq<char>|
                            message@ == "secure random generator failed: "@ + detail,
                    },
                }
            },
        },
{
    erase(password);
    match decrypted {
        Ok(portable) => {
            match parsed_uuid(portable.id.as_str()) {
                Some(id) => imported(portable, id, desktop),
                None => {
                    if let Err(message) = check_name(portable.name.as_str()) {
                        return Err(message);
                    }
                    match drawn_identifier() {
                        Ok(id) => imported(portable, id, desktop),
                        Err(error) => Err(error.message()),
                    }
                },
            }
        },
        Err(detail) => Err(detail),
    }
}

// Listing

/// Whether a file with the given extension holds a profile.
pub fn is_profile_file(extension: Option<&str>) -> (yes: bool)
    ensures
        yes == (extension matches Some(e) && e@ == "toml"@),
{
    match extension {
        Some(extension) => text::same(extension, "toml"),
        None => false,
    }
}

pub open spec fn summary_views(list: Seq<ProfileSummary>) -> Seq<SummaryModel> {
    list.map_values(|profile: ProfileSummary| profile@)
}

/// What profiles are listed by.
pub open spec fn name_keys(list: Seq<SummaryModel>) -> Seq<(Seq<char>, Seq<char>)> {
    list.map_values(
        |profile: SummaryModel| (text::unicode_lowercase(profile.name), Seq::<char>::empty()),
    )
}

/// Sorts profiles by name, ignoring case.
pub fn sort_by_name(profiles: Vec<ProfileSummary>) -> (sorted: Vec<ProfileSummary>)
    ensures
        order::is_sorted(
            summary_views(sorted@),
            summary_views(profiles@),
            name_keys(summary_views(profiles@)),
        ),
{
    let ghost all = summary_views(profiles@);
    let mut keys: Vec<SortKey> = Vec::new();
    let mut i: usize = 0;
    while i < profiles.len()
        invariant
            i <= profiles@.len(),
            all == summary_views(profiles@),
            order::key_views(keys@) =~= name_keys(all).subrange(0, i as int),
        decreases profiles@.len() - i,
    {
        let ghost before = order::key_views(keys@);
        let key = SortKey {
            first: text::to_lowercase(profiles[i].name.as_str()),
            second: String::new(),
        };
        let ghost view = key@;
        assert(view.1 =~= Seq::<char>::empty());
        assert(name_keys(all)[i as int] == view);
        keys.push(key);
        assert(order::key_views(keys@) =~= before.push(view));
        i = i + 1;
    }
    assert(order::key_views(keys@) =~= name_keys(all));
    assert(order::key_views(keys@).len() == keys@.len());
    let ghost items = profiles@;
    let ghost views = order::key_views(keys@);
    let sorted = order::sort_by_keys(profiles, keys);
    proof {
        let chosen = choose|chosen: Seq<int>| #[trigger]
            order::sorted_order(views, chosen) && sorted@ == order::rearranged(items, chosen);
        assert(summary_views(sorted@) =~= order::rearranged(all, chosen));
    }
    sorted
}

/// However a UUID is written, in groups, without hyphens, in braces or as a
/// URN, in capitals or not, it names one profile: the groups in lower case.
pub proof fn every_notation_names_the_same_profile(groups: Seq<char>, urn: Seq<char>)
    requires
        groups.len() == 36,
        forall|i: int|
            0 <= i < 36 ==> if i == 8 || i == 13 || i == 18 || i == 23 {
                #[trigger] groups[i] == '-'
            } else {
                '0' <= groups[i] <= '9' || 'a' <= groups[i] <= 'f' || 'A' <= groups[i] <= 'F'
            },
        urn == "urn:uuid:"@ || urn == "URN:UUID:"@,
    ensures
        uuid_text(groups) == Some(text::ascii_lower(groups)),
        uuid_text(seq!['{'] + groups + seq!['}']) == Some(text::ascii_lower(groups)),
        uuid_text(urn + groups) == Some(text::ascii_lower(groups)),
        uuid_text(
            groups.subrange(0, 8) + groups.subrange(9, 13) + groups.subrange(14, 18)
                + groups.subrange(19, 23) + groups.subrange(24, 36),
        ) == Some(text::ascii_lower(groups)),
        profile_file(groups) == Some(text::ascii_lower(groups) + ".toml"@),
{
    assert(is_hyphenated(groups));
    let braced = seq!['{'] + groups + seq!['}'];
    assert(braced.len() == 38);
    assert(braced.subrange(1, 37) =~= groups);
    reveal_strlit("urn:uuid:");
    reveal_strlit("URN:UUID:");
    assert(text::ascii_lower("URN:UUID:"@) =~= text::ascii_lower("urn:uuid:"@));
    let named = urn + groups;
    assert(named.len() == 45);
    assert(named.subrange(0, 9) =~= urn);
    assert(named.subrange(9, 45) =~= groups);
    let digits = groups.subrange(0, 8) + groups.subrange(9, 13) + groups.subrange(14, 18)
        + groups.subrange(19, 23) + groups.subrange(24, 36);
    assert(digits.len() == 32);
    assert forall|i: int| 0 <= i < 32 implies is_hex(#[trigger] digits[i]) by {
        let at = if i < 8 {
            i
        } else if i < 12 {
            i + 1
        } else if i < 16 {
            i + 2
        } else if i < 20 {
            i + 3
        } else {
            i + 4
        };
        assert(digits[i] == groups[at]);
        assert(!is_hyphen_position(at));
    }
    assert(with_hyphens(digits) =~= groups);
}

/// What is no UUID in one of its notations is refused.
pub proof fn other_identifiers_are_refused(id: Seq<char>)
    ensures
        id.len() != 32 && id.len() != 36 && id.len() != 38 && id.len() != 45 ==> uuid_text(id)
            is None,
        id.len() == 36 && id[8] != '-' ==> uuid_text(id) is None,
        id.len() == 36 && id[0] == 'g' ==> uuid_text(id) is None,
        id.len() == 32 && id[8] == '-' ==> uuid_text(id) is None,
        id.len() == 38 && id[0] != '{' ==> uuid_text(id) is None,
{
}

/// A drawn identifier shows its octets in order, two digits each and the higher
/// one first, but for the digits that say which kind of UUID it is.
pub proof fn drawn_identifiers_show_their_octets(bytes: Seq<u8>, k: int)
    requires
        bytes.len() == 16,
        0 <= k < 4,
    ensures
        random_uuid(bytes).len() == 36,
        random_uuid(bytes)[2 * k] == text::hex_char(bytes[k] as nat / 16),
        random_uuid(bytes)[2 * k + 1] == text::hex_char(bytes[k] as nat % 16),
        random_uuid(bytes)[14] == '4',
        random_uuid(bytes)[15] == text::hex_char(bytes[6] as nat % 16),
        random_uuid(bytes)[19] == text::hex_char(8 + bytes[8] as nat % 64 / 16),
        random_uuid(bytes)[20] == text::hex_char(bytes[8] as nat % 16),
        random_uuid(bytes)[34] == text::hex_char(bytes[15] as nat / 16),
        random_uuid(bytes)[35] == text::hex_char(bytes[15] as nat % 16),
{
    assert((0x40 + bytes[6] as nat % 16) / 16 == 4);
    assert((0x40 + bytes[6] as nat % 16) % 16 == bytes[6] as nat % 16);
    assert((0x80 + bytes[8] as nat % 64) / 16 == 8 + bytes[8] as nat % 64 / 16);
    assert((0x80 + bytes[8] as nat % 64) % 16 == bytes[8] as nat % 16);
}

/// Profiles are listed by name without regard to case, and none is lost.
pub proof fn profiles_are_listed_by_name(
    sorted: Seq<SummaryModel>,
    profiles: Seq<SummaryModel>,
    i: int,
    j: int,
)
    requires
        order::is_sorted(sorted, profiles, name_keys(profiles)),
        0 <= i < j < sorted.len(),
    ensures
        !text::text_less(
            text::unicode_lowercase(sorted[j].name),
            text::unicode_lowercase(sorted[i].name),
        ),
        sorted.len() == profiles.len(),
{
    let places = order::sorted_items_are_in_order(sorted, profiles, name_keys(profiles), i, j);
}

/// An imported profile keeps its keys, loses the margins of its name and its
/// endpoint, and gets the interface of its system.
pub proof fn imported_profiles_keep_their_keys(
    profile: StoredProfile,
    portable: PortableProfile,
    id: Seq<char>,
    desktop: Desktop,
)
    requires
        is_imported(profile, portable, id, desktop),
    ensures
        profile.id@ == id,
        profile.client_private_key@ == portable.client_private_key@,
        profile.server_public_key@ == portable.server_public_key@,
        profile.name@ == text::trim(portable.name@),
        profile.server@ == text::trim(portable.endpoint@),
        profile.protocol is Legacy,
        desktop is Windows ==> profile.tun_name@ == "MouseVPN"@,
        desktop is Linux ==> profile.tun_name@ == "mousevpn0"@,
{
}

} // verus!
