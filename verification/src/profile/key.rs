//! The canonical profile key derived from a service's profile name (and,
//! for an isolated profile, its id), its text form, and the UUIDv5 the
//! webview data store is named by.

use vstd::prelude::*;

use crate::config::ids::id_error;
use crate::config::{is_valid_id, ProfileName, ServiceId};
use crate::text::{from_chars, join2, join3, to_chars};

verus! {

/// The fixed namespace of every profile UUID. Changing it would orphan
/// every existing webview data store.
pub const PROFILE_NAMESPACE: [u8; 16] = [
    0x21, 0x5e, 0x6f, 0x6b, 0x39, 0x7e, 0x46, 0x25, 0xbe, 0x56, 0x4f, 0x02, 0x42, 0x05, 0x28, 0x46,
];

/// The key a profile's UUID is recorded under.
///
/// Text form: `default`; `isolated:<service_id>` (private to one
/// service); `named:<name>` (shared by every service naming it; never
/// `default` or `isolated`).
#[derive(Debug, Clone, PartialEq, Eq, PartialOrd, Ord, Hash)]
pub enum ProfileKey {
    Default,
    Isolated(ServiceId),
    Named(ProfileName),
}

/// The spec-level value of a [`ProfileKey`].
pub enum KeyView {
    Default,
    Isolated(Seq<char>),
    Named(Seq<char>),
}

impl View for ProfileKey {
    type V = KeyView;

    open spec fn view(&self) -> KeyView {
        match self {
            ProfileKey::Default => KeyView::Default,
            ProfileKey::Isolated(id) => KeyView::Isolated(id@),
            ProfileKey::Named(name) => KeyView::Named(name@),
        }
    }
}

/// The text form of a key.
pub open spec fn key_text(k: KeyView) -> Seq<char> {
    match k {
        KeyView::Default => "default"@,
        KeyView::Isolated(id) => "isolated:"@ + id,
        KeyView::Named(n) => "named:"@ + n,
    }
}

/// `"invalid profile key `{value}`: {reason}"`.
pub open spec fn invalid_key(value: Seq<char>, reason: Seq<char>) -> Seq<char> {
    "invalid profile key `"@ + value + "`: "@ + reason
}

/// What a key's text form parses to: the key, or why it is not one. A
/// `named:` form of `default` or `isolated` is refused: those always have
/// their own forms.
pub open spec fn parse_key(v: Seq<char>) -> Result<KeyView, Seq<char>> {
    if v == "default"@ {
        Ok(KeyView::Default)
    } else if "isolated:"@.is_prefix_of(v) {
        let id = v.skip("isolated:"@.len() as int);
        if is_valid_id(id) {
            Ok(KeyView::Isolated(id))
        } else {
            Err(invalid_key(v, id_error(id).unwrap()))
        }
    } else if "named:"@.is_prefix_of(v) {
        let n = v.skip("named:"@.len() as int);
        if n == "default"@ {
            Err(invalid_key(v, "`named:default` is reserved for `ProfileKey::Default`, never a named profile"@))
        } else if n == "isolated"@ {
            Err(invalid_key(v, "`named:isolated` is reserved for `ProfileKey::Isolated`, never a named profile"@))
        } else if is_valid_id(n) {
            Ok(KeyView::Named(n))
        } else {
            Err(invalid_key(v, id_error(n).unwrap()))
        }
    } else {
        Err(invalid_key(v, "expected `default`, `isolated:<id>`, or `named:<name>`"@))
    }
}

fn strip_prefix_chars(value: &Vec<char>, prefix: &str) -> (r: Option<Vec<char>>)
    ensures
        r is Some <==> prefix@.is_prefix_of(value@),
        r matches Some(rest) ==> rest@ == value@.skip(prefix@.len() as int),
{
    let p = to_chars(prefix);
    if p.len() > value.len() {
        return None;
    }
    let mut i: usize = 0;
    while i < p.len()
        invariant
            p@ == prefix@,
            p@.len() <= value@.len(),
            i <= p@.len(),
            forall|j: int| 0 <= j < i ==> p@[j] == value@[j],
        decreases p@.len() - i,
    {
        if p[i] != value[i] {
            return None;
        }
        i = i + 1;
    }
    assert(p@ =~= value@.take(p@.len() as int));
    let mut rest: Vec<char> = Vec::new();
    let mut j: usize = p.len();
    while j < value.len()
        invariant
            p@.len() <= j <= value@.len(),
            rest@ == value@.subrange(p@.len() as int, j as int),
        decreases value@.len() - j,
    {
        rest.push(value[j]);
        assert(rest@ =~= value@.subrange(p@.len() as int, j + 1));
        j = j + 1;
    }
    Some(rest)
}

impl ProfileKey {
    /// The key's text form.
    pub fn to_key_string(&self) -> (s: String)
        ensures
            s@ == key_text(self@),
    {
        match self {
            ProfileKey::Default => String::from_str("default"),
            ProfileKey::Isolated(id) => join2("isolated:", id.as_str()),
            ProfileKey::Named(name) => join2("named:", name.as_str()),
        }
    }

    /// Parses a key's text form back into the key (see [`parse_key`]).
    pub fn parse(value: &str) -> (r: Result<ProfileKey, String>)
        ensures
            match parse_key(value@) {
                Ok(k) => r matches Ok(key) && key@ == k,
                Err(msg) => r matches Err(m) && m@ == msg,
            },
    {
        let chars = to_chars(value);
        if String::from_str(value) == String::from_str("default") {
            return Ok(ProfileKey::Default);
        }
        if let Some(rest) = strip_prefix_chars(&chars, "isolated:") {
            let text = from_chars(&rest);
            return match ServiceId::new(text.as_str()) {
                Ok(id) => Ok(ProfileKey::Isolated(id)),
                Err(reason) => Err(invalid_key_text(value, reason.as_str())),
            };
        }
        if let Some(rest) = strip_prefix_chars(&chars, "named:") {
            let text = from_chars(&rest);
            if text == String::from_str("default") {
                return Err(invalid_key_text(
                    value,
                    "`named:default` is reserved for `ProfileKey::Default`, never a named profile",
                ));
            }
            if text == String::from_str("isolated") {
                return Err(invalid_key_text(
                    value,
                    "`named:isolated` is reserved for `ProfileKey::Isolated`, never a named profile",
                ));
            }
            return match ProfileName::new(text.as_str()) {
                Ok(name) => Ok(ProfileKey::Named(name)),
                Err(reason) => Err(invalid_key_text(value, reason.as_str())),
            };
        }
        Err(invalid_key_text(value, "expected `default`, `isolated:<id>`, or `named:<name>`"))
    }
}

fn invalid_key_text(value: &str, reason: &str) -> (s: String)
    ensures
        s@ == invalid_key(value@, reason@),
{
    let head = join3("invalid profile key `", value, "`: ");
    join2(head.as_str(), reason)
}

impl std::str::FromStr for ProfileKey {
    type Err = String;

    fn from_str(value: &str) -> (r: Result<Self, Self::Err>)
        ensures
            match parse_key(value@) {
                Ok(k) => r matches Ok(key) && key@ == k,
                Err(msg) => r matches Err(m) && m@ == msg,
            },
    {
        ProfileKey::parse(value)
    }
}

/// Every key's text form parses back to that key, except a named key
/// whose name is `default` or `isolated` (those names always take the
/// other two forms).
pub proof fn lemma_key_text_round_trip(k: KeyView)
    requires
        match k {
            KeyView::Default => true,
            KeyView::Isolated(id) => is_valid_id(id),
            KeyView::Named(n) => is_valid_id(n) && n != "default"@ && n != "isolated"@,
        },
    ensures
        parse_key(key_text(k)) == Ok::<KeyView, Seq<char>>(k),
{
    reveal_strlit("default");
    reveal_strlit("isolated:");
    reveal_strlit("named:");
    match k {
        KeyView::Default => {},
        KeyView::Isolated(id) => {
            let v = key_text(k);
            assert(v != "default"@) by {
                assert(v[0] != "default"@[0]);
            }
            assert("isolated:"@.is_prefix_of(v)) by {
                assert(v.take("isolated:"@.len() as int) =~= "isolated:"@);
            }
            assert(v.skip("isolated:"@.len() as int) =~= id);
        },
        KeyView::Named(n) => {
            let v = key_text(k);
            assert(v != "default"@) by {
                assert(v[0] != "default"@[0]);
            }
            assert(!"isolated:"@.is_prefix_of(v)) by {
                assert(v[0] != "isolated:"@[0]);
            }
            assert("named:"@.is_prefix_of(v)) by {
                assert(v.take("named:"@.len() as int) =~= "named:"@);
            }
            assert(v.skip("named:"@.len() as int) =~= n);
        },
    }
}

/// A text that parses gives back exactly that text as the key's form.
pub proof fn lemma_parse_key_inverse(v: Seq<char>)
    requires
        parse_key(v) is Ok,
    ensures
        key_text(parse_key(v)->Ok_0) == v,
{
    reveal_strlit("default");
    if v == "default"@ {
    } else if "isolated:"@.is_prefix_of(v) {
        assert("isolated:"@ + v.skip("isolated:"@.len() as int) =~= v);
    } else {
        assert("named:"@ + v.skip("named:"@.len() as int) =~= v);
    }
}

/// The key of a service naming profile `name`: `default` and `isolated`
/// take their own forms (the latter private to `service`), any other
/// name is a named profile.
pub open spec fn key_of(name: Seq<char>, service: Seq<char>) -> KeyView {
    if name == "default"@ {
        KeyView::Default
    } else if name == "isolated"@ {
        KeyView::Isolated(service)
    } else {
        KeyView::Named(name)
    }
}

/// Derives the key of a service `service` naming profile `name`.
pub fn derive_key(name: &ProfileName, service: &ServiceId) -> (k: ProfileKey)
    ensures
        k@ == key_of(name@, service@),
{
    let text = String::from_str(name.as_str());
    if text == String::from_str("default") {
        ProfileKey::Default
    } else if text == String::from_str("isolated") {
        ProfileKey::Isolated(service.clone())
    } else {
        ProfileKey::Named(name.clone())
    }
}

/// What `uuid::Uuid::new_v5` gives for a namespace and a name's bytes.
pub uninterp spec fn uuid_v5(namespace: Seq<u8>, name: Seq<char>) -> Seq<u8>;

/// `uuid::Uuid::new_v5(namespace, name.as_bytes())`, as its 16 bytes. The
/// result is named by [`uuid_v5`] (a SHA-1 name-based UUID; nothing of
/// SHA-1 is stated here).
#[verifier::external_body]
fn new_v5_bytes(namespace: &[u8; 16], name: &str) -> (r: [u8; 16])
    ensures
        r@ == uuid_v5(namespace@, name@),
{
    *uuid::Uuid::new_v5(&uuid::Uuid::from_bytes(*namespace), name.as_bytes()).as_bytes()
}

/// The stable UUID of `key`'s data store: UUIDv5 of its text form under
/// [`PROFILE_NAMESPACE`].
pub fn profile_uuid(key: &ProfileKey) -> (u: [u8; 16])
    ensures
        u@ == uuid_v5(PROFILE_NAMESPACE@, key_text(key@)),
{
    let text = key.to_key_string();
    new_v5_bytes(&PROFILE_NAMESPACE, text.as_str())
}

} // verus!

verus! {

/// The recorded profile UUIDs: key text to UUID bytes, later entries
/// taking precedence.
pub open spec fn table_map(s: Seq<(ProfileKey, [u8; 16])>) -> Map<Seq<char>, Seq<u8>>
    decreases s.len(),
{
    if s.len() == 0 {
        Map::empty()
    } else {
        table_map(s.drop_last()).insert(key_text(s.last().0@), s.last().1@)
    }
}

/// The UUID recorded for each profile key, kept for the life of the
/// install.
#[derive(Debug)]
pub struct ProfileTable {
    entries: Vec<(ProfileKey, [u8; 16])>,
}

impl View for ProfileTable {
    type V = Map<Seq<char>, Seq<u8>>;

    closed spec fn view(&self) -> Map<Seq<char>, Seq<u8>> {
        table_map(self.entries@)
    }
}

impl ProfileTable {
    /// No profiles recorded.
    pub fn new() -> (t: Self)
        ensures
            t@ == Map::<Seq<char>, Seq<u8>>::empty(),
    {
        ProfileTable { entries: Vec::new() }
    }

    /// The UUID recorded for `key`, if any.
    pub fn get(&self, key: &ProfileKey) -> (r: Option<[u8; 16]>)
        ensures
            r is Some <==> self@.contains_key(key_text(key@)),
            r matches Some(u) ==> u@ == self@[key_text(key@)],
    {
        let text = key.to_key_string();
        let ghost k = key_text(key@);
        let ghost s = self.entries@;
        let mut i: usize = self.entries.len();
        assert(s.take(s.len() as int) =~= s);
        while i > 0
            invariant
                s == self.entries@,
                k == key_text(key@),
                text@ == k,
                i <= s.len(),
                table_map(s).contains_key(k) == table_map(s.take(i as int)).contains_key(k),
                table_map(s).contains_key(k) ==> table_map(s)[k] == table_map(s.take(i as int))[k],
            decreases i,
        {
            let ghost t = s.take(i as int);
            assert(t.drop_last() =~= s.take(i - 1));
            assert(t.last() == s[i - 1]);
            let entry_text = self.entries[i - 1].0.to_key_string();
            if entry_text == text {
                proof {
                    assert(table_map(t) == table_map(t.drop_last()).insert(key_text(t.last().0@), t.last().1@));
                    assert(key_text(t.last().0@) == k);
                    assert(table_map(t).contains_key(k));
                    assert(table_map(t)[k] == self.entries@[i - 1].1@);
                    assert(table_map(s).contains_key(k));
                    assert(self@ == table_map(s));
                }
                return Some(self.entries[i - 1].1);
            }
            i = i - 1;
        }
        assert(s.take(0) =~= Seq::<(ProfileKey, [u8; 16])>::empty());
        None
    }

    /// Records `uuid` for `key`.
    pub fn insert(&mut self, key: ProfileKey, uuid: [u8; 16])
        ensures
            final(self)@ == old(self)@.insert(key_text(key@), uuid@),
    {
        let ghost before = self.entries@;
        self.entries.push((key, uuid));
        assert(self.entries@.drop_last() =~= before);
    }

    /// How many entries were recorded (a key recorded twice counts twice).
    pub fn len(&self) -> (n: usize)
        ensures
            n == self.entries().len(),
    {
        self.entries.len()
    }

    /// The recorded entries, oldest first.
    pub closed spec fn entries(self) -> Seq<(ProfileKey, [u8; 16])> {
        self.entries@
    }

    /// The recorded entries, oldest first.
    pub fn entries_slice(&self) -> (s: &[(ProfileKey, [u8; 16])])
        ensures
            s@ == self.entries(),
            table_map(s@) == self@,
    {
        self.entries.as_slice()
    }
}

/// Resolves a service's profile to its data-store UUID: the UUID already
/// recorded for its key if there is one (it never changes once
/// recorded), else the key's UUIDv5, which is then recorded.
pub fn resolve(name: &ProfileName, service: &ServiceId, profiles: &mut ProfileTable) -> (u: [u8; 16])
    ensures
        ({
            let k = key_text(key_of(name@, service@));
            if old(profiles)@.contains_key(k) {
                u@ == old(profiles)@[k] && final(profiles)@ == old(profiles)@
            } else {
                u@ == uuid_v5(PROFILE_NAMESPACE@, k) && final(profiles)@ == old(profiles)@.insert(k, u@)
            }
        }),
{
    let key = derive_key(name, service);
    match profiles.get(&key) {
        Some(u) => u,
        None => {
            let u = profile_uuid(&key);
            profiles.insert(key, u);
            u
        },
    }
}

/// Once a profile has a UUID, resolving it again gives the same UUID and
/// records nothing new.
pub proof fn lemma_resolve_is_stable(table: Map<Seq<char>, Seq<u8>>, name: Seq<char>, service: Seq<char>)
    requires
        table.contains_key(key_text(key_of(name, service))),
    ensures
        table.insert(key_text(key_of(name, service)), table[key_text(key_of(name, service))]) == table,
{
    assert(table.insert(key_text(key_of(name, service)), table[key_text(key_of(name, service))]) =~= table);
}

/// Two services naming `isolated` never share a key; two naming the same
/// other profile always do.
pub proof fn lemma_isolation(name: Seq<char>, a: Seq<char>, b: Seq<char>)
    ensures
        name == "isolated"@ && a != b ==> key_text(key_of(name, a)) != key_text(key_of(name, b)),
        name != "isolated"@ ==> key_text(key_of(name, a)) == key_text(key_of(name, b)),
{
    if name == "isolated"@ && a != b {
        reveal_strlit("default");
        reveal_strlit("isolated");
        assert("isolated"@ != "default"@) by {
            assert("isolated"@[0] != "default"@[0]);
        }
        assert(key_of(name, a) == KeyView::Isolated(a));
        let ta = key_text(key_of(name, a));
        let tb = key_text(key_of(name, b));
        assert(ta.skip("isolated:"@.len() as int) =~= a);
        assert(tb.skip("isolated:"@.len() as int) =~= b);
    }
}

} // verus!

verus! {

/// The key text of service `s`'s profile.
pub open spec fn service_key_text(s: crate::config::model::ServiceView) -> Seq<char> {
    key_text(key_of(s.profile, s.id))
}

fn same_bytes(a: &[u8; 16], b: &[u8; 16]) -> (r: bool)
    ensures
        r == (a@ == b@),
{
    let mut i: usize = 0;
    while i < 16
        invariant
            i <= 16,
            a@.len() == 16,
            b@.len() == 16,
            forall|j: int| 0 <= j < i ==> a@[j] == b@[j],
        decreases 16 - i,
    {
        if a[i] != b[i] {
            return false;
        }
        i = i + 1;
    }
    assert(a@ =~= b@);
    true
}

/// Whether some service of `services` still resolves, through
/// `profiles`, to the data store `uuid`: such a store must not be
/// deleted.
pub fn uuid_still_in_use(
    services: &[crate::config::ServiceConfig],
    profiles: &ProfileTable,
    uuid: [u8; 16],
) -> (b: bool)
    ensures
        b == exists|i: int|
            0 <= i < services@.len() && #[trigger] profiles@.contains_key(service_key_text(services@[i]@))
                && profiles@[service_key_text(services@[i]@)] == uuid@,
{
    let mut i: usize = 0;
    while i < services.len()
        invariant
            i <= services@.len(),
            forall|j: int|
                0 <= j < i ==> !(#[trigger] profiles@.contains_key(service_key_text(services@[j]@))
                    && profiles@[service_key_text(services@[j]@)] == uuid@),
        decreases services@.len() - i,
    {
        let key = derive_key(&services[i].profile, &services[i].id);
        match profiles.get(&key) {
            Some(u) => {
                if same_bytes(&u, &uuid) {
                    assert(key_text(key@) == service_key_text(services@[i as int]@));
                    assert(profiles@.contains_key(service_key_text(services@[i as int]@)));
                    return true;
                }
            },
            None => {},
        }
        i = i + 1;
    }
    false
}

} // verus!
