//! The capability table: what a server announces about itself, checked and
//! folded into one record.

use vstd::prelude::*;
use vstd::string::*;

verus! {

/// Protocol version that a server announces.
#[derive(Debug, PartialEq, Eq, Clone, Copy, Structural)]
pub struct Version {
    pub major: u64,
    pub minor: u64,
}

impl DeepView for Version {
    type V = Version;

    open spec fn deep_view(&self) -> Version {
        *self
    }
}

/// One line of a capability announcement.
#[derive(Debug, PartialEq, Clone)]
pub enum Capability {
    Implementation(String),
    Sasl(Vec<String>),
    Sieve(Vec<String>),
    StartTls,
    MaxRedirects(u64),
    Notify(Vec<String>),
    Language(String),
    Owner(String),
    Version(Version),
    Unknown(String, Option<String>),
}

/// Mathematical value of a [`Capability`].
pub ghost enum CapabilityView {
    Implementation(Seq<char>),
    Sasl(Seq<Seq<char>>),
    Sieve(Seq<Seq<char>>),
    StartTls,
    MaxRedirects(u64),
    Notify(Seq<Seq<char>>),
    Language(Seq<char>),
    Owner(Seq<char>),
    Version(Version),
    Unknown(Seq<char>, Option<Seq<char>>),
}

impl View for Capability {
    type V = CapabilityView;

    open spec fn view(&self) -> CapabilityView {
        match self {
            Capability::Implementation(v) => CapabilityView::Implementation(v@),
            Capability::Sasl(v) => CapabilityView::Sasl(v.deep_view()),
            Capability::Sieve(v) => CapabilityView::Sieve(v.deep_view()),
            Capability::StartTls => CapabilityView::StartTls,
            Capability::MaxRedirects(n) => CapabilityView::MaxRedirects(*n),
            Capability::Notify(v) => CapabilityView::Notify(v.deep_view()),
            Capability::Language(v) => CapabilityView::Language(v@),
            Capability::Owner(v) => CapabilityView::Owner(v@),
            Capability::Version(v) => CapabilityView::Version(*v),
            Capability::Unknown(name, value) => CapabilityView::Unknown(name@, value.deep_view()),
        }
    }
}

impl DeepView for Capability {
    type V = CapabilityView;

    open spec fn deep_view(&self) -> CapabilityView {
        self@
    }
}

/// The key under which a capability is announced. Every recognised
/// capability has a key of its own; an unrecognised one is keyed by its name
/// as it was sent.
pub ghost enum CapabilityKey {
    Implementation,
    Sasl,
    Sieve,
    StartTls,
    MaxRedirects,
    Notify,
    Language,
    Owner,
    Version,
    Unknown(Seq<char>),
}

impl CapabilityView {
    pub open spec fn key(self) -> CapabilityKey {
        match self {
            CapabilityView::Implementation(_) => CapabilityKey::Implementation,
            CapabilityView::Sasl(_) => CapabilityKey::Sasl,
            CapabilityView::Sieve(_) => CapabilityKey::Sieve,
            CapabilityView::StartTls => CapabilityKey::StartTls,
            CapabilityView::MaxRedirects(_) => CapabilityKey::MaxRedirects,
            CapabilityView::Notify(_) => CapabilityKey::Notify,
            CapabilityView::Language(_) => CapabilityKey::Language,
            CapabilityView::Owner(_) => CapabilityKey::Owner,
            CapabilityView::Version(_) => CapabilityKey::Version,
            CapabilityView::Unknown(name, _) => CapabilityKey::Unknown(name),
        }
    }
}

impl CapabilityKey {
    /// The name by which an error refers to the key.
    pub open spec fn name(self) -> Seq<char> {
        match self {
            CapabilityKey::Implementation => "IMPLEMENTATION"@,
            CapabilityKey::Sasl => "SASL"@,
            CapabilityKey::Sieve => "SIEVE"@,
            CapabilityKey::StartTls => "STARTTLS"@,
            CapabilityKey::MaxRedirects => "MAXREDIRECTS"@,
            CapabilityKey::Notify => "NOTIFY"@,
            CapabilityKey::Language => "LANGUAGE"@,
            CapabilityKey::Owner => "OWNER"@,
            CapabilityKey::Version => "VERSION"@,
            CapabilityKey::Unknown(name) => name,
        }
    }
}

/// Why a capability announcement was not accepted.
#[derive(Debug, PartialEq, Clone)]
pub enum CapabilitiesError {
    MissingImplementation,
    MissingSieve,
    MissingVersion,
    DuplicateCapability { capability: String },
}

/// Mathematical value of a [`CapabilitiesError`].
pub ghost enum CapabilitiesErrorView {
    MissingImplementation,
    MissingSieve,
    MissingVersion,
    DuplicateCapability { capability: Seq<char> },
}

impl View for CapabilitiesError {
    type V = CapabilitiesErrorView;

    open spec fn view(&self) -> CapabilitiesErrorView {
        match self {
            CapabilitiesError::MissingImplementation => CapabilitiesErrorView::MissingImplementation,
            CapabilitiesError::MissingSieve => CapabilitiesErrorView::MissingSieve,
            CapabilitiesError::MissingVersion => CapabilitiesErrorView::MissingVersion,
            CapabilitiesError::DuplicateCapability { capability } => {
                CapabilitiesErrorView::DuplicateCapability { capability: capability@ }
            },
        }
    }
}

impl CapabilitiesErrorView {
    /// What the error says.
    pub open spec fn text(self) -> Seq<char> {
        match self {
            CapabilitiesErrorView::MissingImplementation => "capabilities response is missing required capability `IMPLEMENTATION`"@,
            CapabilitiesErrorView::MissingSieve => "capabilities response is missing required capability `SIEVE`"@,
            CapabilitiesErrorView::MissingVersion => "capabilities response is missing required capability `VERSION`"@,
            CapabilitiesErrorView::DuplicateCapability { capability } => "received duplicate capability `"@
                + capability + "`"@,
        }
    }
}

impl CapabilitiesError {
    /// Writes the error out.
    pub fn to_text(&self) -> (text: String)
        ensures
            text@ == self@.text(),
    {
        match self {
            CapabilitiesError::MissingImplementation => "capabilities response is missing required capability `IMPLEMENTATION`".to_owned(),
            CapabilitiesError::MissingSieve => "capabilities response is missing required capability `SIEVE`".to_owned(),
            CapabilitiesError::MissingVersion => "capabilities response is missing required capability `VERSION`".to_owned(),
            CapabilitiesError::DuplicateCapability { capability } => {
                let mut text = "received duplicate capability `".to_owned();
                text.append(capability.as_str());
                text.append("`");
                text
            },
        }
    }
}

impl DeepView for CapabilitiesError {
    type V = CapabilitiesErrorView;

    open spec fn deep_view(&self) -> CapabilitiesErrorView {
        self@
    }
}

/// A validated capability announcement.
#[derive(Debug, PartialEq, Clone)]
pub struct Capabilities {
    pub implementation: String,
    pub sasl: Vec<String>,
    pub sieve: Vec<String>,
    pub start_tls: bool,
    pub max_redirects: Option<u64>,
    pub notify: Option<Vec<String>>,
    pub language: Option<String>,
    pub owner: Option<String>,
    pub version: Version,
    /// The capabilities that this library does not know, in the order of
    /// their arrival, each with its value if it had one.
    pub others: Vec<(String, Option<String>)>,
}

/// Mathematical value of a [`Capabilities`] record.
pub ghost struct CapabilitiesView {
    pub implementation: Seq<char>,
    pub sasl: Seq<Seq<char>>,
    pub sieve: Seq<Seq<char>>,
    pub start_tls: bool,
    pub max_redirects: Option<u64>,
    pub notify: Option<Seq<Seq<char>>>,
    pub language: Option<Seq<char>>,
    pub owner: Option<Seq<char>>,
    pub version: Version,
    pub others: Seq<(Seq<char>, Option<Seq<char>>)>,
}

impl View for Capabilities {
    type V = CapabilitiesView;

    open spec fn view(&self) -> CapabilitiesView {
        CapabilitiesView {
            implementation: self.implementation@,
            sasl: self.sasl.deep_view(),
            sieve: self.sieve.deep_view(),
            start_tls: self.start_tls,
            max_redirects: self.max_redirects,
            notify: self.notify.deep_view(),
            language: self.language.deep_view(),
            owner: self.owner.deep_view(),
            version: self.version,
            others: self.others.deep_view(),
        }
    }
}

impl DeepView for Capabilities {
    type V = CapabilitiesView;

    open spec fn deep_view(&self) -> CapabilitiesView {
        self@
    }
}

/// The place of the first entry of `others` that has the name `name`, or
/// the length of `others` where none has.
pub open spec fn place_of(others: Seq<(Seq<char>, Option<Seq<char>>)>, name: Seq<char>) -> int
    decreases others.len(),
{
    if others.len() == 0 {
        0
    } else if others[0].0 == name {
        0
    } else {
        1 + place_of(others.drop_first(), name)
    }
}

impl CapabilitiesView {
    /// The capabilities that the library does not know, as a map from each
    /// name to the value announced under it.
    pub open spec fn extensions(self) -> Map<Seq<char>, Option<Seq<char>>> {
        Map::new(
            |name: Seq<char>| place_of(self.others, name) < self.others.len(),
            |name: Seq<char>| self.others[place_of(self.others, name)].1,
        )
    }

    /// No unrecognised capability is recorded twice.
    pub open spec fn wf(self) -> bool {
        forall|i: int, j: int|
            0 <= i < j < self.others.len() ==> (#[trigger] self.others[i]).0 != (
            #[trigger] self.others[j]).0
    }
}

/// `place_of` is the least place with the name, and no place has the name
/// where it is the length.
pub proof fn lemma_place_of(others: Seq<(Seq<char>, Option<Seq<char>>)>, name: Seq<char>)
    ensures
        0 <= place_of(others, name) <= others.len(),
        place_of(others, name) < others.len() ==> others[place_of(others, name)].0 == name,
        forall|k: int| 0 <= k < place_of(others, name) ==> (#[trigger] others[k]).0 != name,
    decreases others.len(),
{
    if others.len() > 0 && others[0].0 != name {
        let rest = others.drop_first();
        lemma_place_of(rest, name);
        assert forall|k: int| 0 <= k < place_of(others, name) implies (#[trigger] others[k]).0
            != name by {
            if k > 0 {
                assert(others[k] == rest[k - 1]);
            }
        }
    }
}

impl Capabilities {
    /// Looks up a capability that the library does not know. Hands back
    /// nothing where the server did not announce it, and its value, if it
    /// has one, where the server did.
    pub fn extension(&self, name: &str) -> (value: Option<&Option<String>>)
        ensures
            match value {
                Some(found) => self@.extensions().contains_key(name@) && self@.extensions()[name@]
                    == found.deep_view(),
                None => !self@.extensions().contains_key(name@),
            },
    {
        let mut k: usize = 0;
        while k < self.others.len()
            invariant
                k <= self.others.len(),
                self@.others.len() == self.others.len(),
                forall|m: int| 0 <= m < k ==> (#[trigger] self@.others[m]).0 != name@,
            decreases self.others.len() - k,
        {
            assert(self@.others[k as int] == self.others@[k as int].deep_view());
            if str_equal(self.others[k].0.as_str(), name) {
                proof {
                    lemma_place_of(self@.others, name@);
                    let place = place_of(self@.others, name@);
                    if place < k {
                        assert(self@.others[place].0 == name@);
                    }
                    assert(place == k);
                }
                return Some(&self.others[k].1);
            }
            k += 1;
        }
        proof {
            lemma_place_of(self@.others, name@);
        }
        None
    }
}

/// Whether two strings are the same text.
pub fn str_equal(a: &str, b: &str) -> (same: bool)
    ensures
        same == (a@ == b@),
{
    let x = a.as_bytes();
    let y = b.as_bytes();
    proof {
        vstd::utf8::encode_utf8_decode_utf8(a@);
        vstd::utf8::encode_utf8_decode_utf8(b@);
    }
    if x.len() != y.len() {
        return false;
    }
    let mut k: usize = 0;
    while k < x.len()
        invariant
            k <= x.len(),
            x.len() == y.len(),
            x@ == a.spec_bytes(),
            y@ == b.spec_bytes(),
            forall|m: int| 0 <= m < k ==> x@[m] == y@[m],
        decreases x.len() - k,
    {
        if x[k] != y[k] {
            return false;
        }
        k += 1;
    }
    assert(x@ =~= y@);
    true
}

/// The entry that `caps` holds under `key`: the last one, if there are
/// several.
pub open spec fn lookup(caps: Seq<CapabilityView>, key: CapabilityKey) -> Option<CapabilityView>
    decreases caps.len(),
{
    if caps.len() == 0 {
        None
    } else if caps.last().key() == key {
        Some(caps.last())
    } else {
        lookup(caps.drop_last(), key)
    }
}

/// The position of the first entry whose key an earlier entry already has.
pub open spec fn first_repeat(caps: Seq<CapabilityView>) -> Option<int>
    decreases caps.len(),
{
    if caps.len() == 0 {
        None
    } else {
        match first_repeat(caps.drop_last()) {
            Some(j) => Some(j),
            None => if lookup(caps.drop_last(), caps.last().key()) is Some {
                Some(caps.len() - 1)
            } else {
                None
            },
        }
    }
}

/// The unrecognised entries of `caps`, in their order.
pub open spec fn unknown_entries(caps: Seq<CapabilityView>) -> Seq<(Seq<char>, Option<Seq<char>>)>
    decreases caps.len(),
{
    if caps.len() == 0 {
        Seq::empty()
    } else {
        match caps.last() {
            CapabilityView::Unknown(name, value) => unknown_entries(caps.drop_last()).push(
                (name, value),
            ),
            _ => unknown_entries(caps.drop_last()),
        }
    }
}

pub open spec fn implementation_of(caps: Seq<CapabilityView>) -> Option<Seq<char>> {
    match lookup(caps, CapabilityKey::Implementation) {
        Some(CapabilityView::Implementation(v)) => Some(v),
        _ => None,
    }
}

pub open spec fn sasl_of(caps: Seq<CapabilityView>) -> Option<Seq<Seq<char>>> {
    match lookup(caps, CapabilityKey::Sasl) {
        Some(CapabilityView::Sasl(v)) => Some(v),
        _ => None,
    }
}

pub open spec fn sieve_of(caps: Seq<CapabilityView>) -> Option<Seq<Seq<char>>> {
    match lookup(caps, CapabilityKey::Sieve) {
        Some(CapabilityView::Sieve(v)) => Some(v),
        _ => None,
    }
}

pub open spec fn max_redirects_of(caps: Seq<CapabilityView>) -> Option<u64> {
    match lookup(caps, CapabilityKey::MaxRedirects) {
        Some(CapabilityView::MaxRedirects(v)) => Some(v),
        _ => None,
    }
}

pub open spec fn notify_of(caps: Seq<CapabilityView>) -> Option<Seq<Seq<char>>> {
    match lookup(caps, CapabilityKey::Notify) {
        Some(CapabilityView::Notify(v)) => Some(v),
        _ => None,
    }
}

pub open spec fn language_of(caps: Seq<CapabilityView>) -> Option<Seq<char>> {
    match lookup(caps, CapabilityKey::Language) {
        Some(CapabilityView::Language(v)) => Some(v),
        _ => None,
    }
}

pub open spec fn owner_of(caps: Seq<CapabilityView>) -> Option<Seq<char>> {
    match lookup(caps, CapabilityKey::Owner) {
        Some(CapabilityView::Owner(v)) => Some(v),
        _ => None,
    }
}

pub open spec fn version_of(caps: Seq<CapabilityView>) -> Option<Version> {
    match lookup(caps, CapabilityKey::Version) {
        Some(CapabilityView::Version(v)) => Some(v),
        _ => None,
    }
}

/// What validation makes of an announcement. A key that occurs twice is
/// reported first, by the name of the earliest entry that repeats one; then
/// the required keys are looked for, `IMPLEMENTATION` before `SIEVE` before
/// `VERSION`; and where nothing is wrong, every field of the record is the
/// value announced under its key, or its default.
pub open spec fn validate(caps: Seq<CapabilityView>) -> Result<
    CapabilitiesView,
    CapabilitiesErrorView,
> {
    if let Some(j) = first_repeat(caps) {
        Err(CapabilitiesErrorView::DuplicateCapability { capability: caps[j].key().name() })
    } else if implementation_of(caps) is None {
        Err(CapabilitiesErrorView::MissingImplementation)
    } else if sieve_of(caps) is None {
        Err(CapabilitiesErrorView::MissingSieve)
    } else if version_of(caps) is None {
        Err(CapabilitiesErrorView::MissingVersion)
    } else {
        Ok(
            CapabilitiesView {
                implementation: implementation_of(caps)->0,
                sasl: match sasl_of(caps) {
                    Some(v) => v,
                    None => Seq::empty(),
                },
                sieve: sieve_of(caps)->0,
                start_tls: lookup(caps, CapabilityKey::StartTls) is Some,
                max_redirects: max_redirects_of(caps),
                notify: notify_of(caps),
                language: language_of(caps),
                owner: owner_of(caps),
                version: version_of(caps)->0,
                others: unknown_entries(caps),
            },
        )
    }
}

/// What `lookup` finds under a key has that key.
pub proof fn lemma_lookup_key(caps: Seq<CapabilityView>, key: CapabilityKey)
    ensures
        lookup(caps, key) matches Some(found) ==> found.key() == key,
    decreases caps.len(),
{
    if caps.len() > 0 && caps.last().key() != key {
        lemma_lookup_key(caps.drop_last(), key);
    }
}

/// Pushing onto a vector pushes the element's value onto the vector's value.
pub proof fn lemma_deep_view_push<T: DeepView>(before: Vec<T>, after: Vec<T>, x: T)
    requires
        after@ == before@.push(x),
    ensures
        after.deep_view() == before.deep_view().push(x.deep_view()),
{
    assert(after.deep_view() =~= before.deep_view().push(x.deep_view()));
}

/// `lookup` finds an unrecognised name exactly where `unknown_entries` lists it.
pub proof fn lemma_unknown_lookup(caps: Seq<CapabilityView>, name: Seq<char>)
    ensures
        lookup(caps, CapabilityKey::Unknown(name)) is Some <==> exists|k: int|
            0 <= k < unknown_entries(caps).len() && (#[trigger] unknown_entries(caps)[k]).0 == name,
    decreases caps.len(),
{
    if caps.len() > 0 {
        let rest = caps.drop_last();
        lemma_unknown_lookup(rest, name);
        let entries = unknown_entries(caps);
        let before = unknown_entries(rest);
        match caps.last() {
            CapabilityView::Unknown(n, v) => {
                assert(entries == before.push((n, v)));
                if n == name {
                    assert(entries[entries.len() - 1].0 == name);
                } else if lookup(rest, CapabilityKey::Unknown(name)) is Some {
                    let k = choose|k: int| 0 <= k < before.len() && (#[trigger] before[k]).0 == name;
                    assert(entries[k].0 == name);
                } else {
                    assert forall|k: int| 0 <= k < entries.len() implies (#[trigger] entries[k]).0
                        != name by {
                        if k < before.len() {
                            assert(entries[k] == before[k]);
                        }
                    }
                }
            },
            _ => {},
        }
    }
}

/// Where no key repeats, no two unrecognised entries share a name.
pub proof fn lemma_unknown_distinct(caps: Seq<CapabilityView>)
    requires
        first_repeat(caps) is None,
    ensures
        forall|i: int, j: int|
            0 <= i < j < unknown_entries(caps).len() ==> (#[trigger] unknown_entries(caps)[i]).0 != (
            #[trigger] unknown_entries(caps)[j]).0,
    decreases caps.len(),
{
    if caps.len() > 0 {
        let rest = caps.drop_last();
        lemma_unknown_distinct(rest);
        match caps.last() {
            CapabilityView::Unknown(n, v) => {
                lemma_unknown_lookup(rest, n);
                let entries = unknown_entries(caps);
                let before = unknown_entries(rest);
                assert(entries == before.push((n, v)));
                assert forall|i: int, j: int| 0 <= i < j < entries.len() implies (
                #[trigger] entries[i]).0 != (#[trigger] entries[j]).0 by {
                    assert(entries[i] == before[i]);
                    if j < before.len() {
                        assert(entries[j] == before[j]);
                    }
                }
            },
            _ => {},
        }
    }
}

fn has_name(others: &Vec<(String, Option<String>)>, name: &String) -> (found: bool)
    ensures
        found <==> exists|k: int|
            0 <= k < others.deep_view().len() && (#[trigger] others.deep_view()[k]).0 == name@,
{
    let mut k: usize = 0;
    while k < others.len()
        invariant
            k <= others.len(),
            forall|m: int| 0 <= m < k ==> (#[trigger] others.deep_view()[m]).0 != name@,
        decreases others.len() - k,
    {
        if others[k].0 == *name {
            assert(others.deep_view()[k as int].0 == name@);
            return true;
        }
        k += 1;
    }
    false
}

fn duplicate(name: &str) -> (error: CapabilitiesError)
    ensures
        error@ == (CapabilitiesErrorView::DuplicateCapability { capability: name@ }),
{
    CapabilitiesError::DuplicateCapability { capability: name.to_owned() }
}

/// Folds a capability announcement into a [`Capabilities`] record, or says
/// what is wrong with it.
pub fn verify_capabilities(capabilities: Vec<Capability>) -> (result: Result<
    Capabilities,
    CapabilitiesError,
>)
    ensures
        match result {
            Ok(record) => validate(capabilities.deep_view()) == Ok::<
                CapabilitiesView,
                CapabilitiesErrorView,
            >(record@) && record@.wf(),
            Err(error) => validate(capabilities.deep_view()) == Err::<
                CapabilitiesView,
                CapabilitiesErrorView,
            >(error@),
        },
{
    let mut implementation: Option<String> = None;
    let mut sasl: Option<Vec<String>> = None;
    let mut sieve: Option<Vec<String>> = None;
    let mut start_tls: bool = false;
    let mut max_redirects: Option<u64> = None;
    let mut notify: Option<Vec<String>> = None;
    let mut language: Option<String> = None;
    let mut owner: Option<String> = None;
    let mut version: Option<Version> = None;
    let mut others: Vec<(String, Option<String>)> = Vec::new();

    let ghost all = capabilities.deep_view();
    let ghost items = capabilities@;
    assert(all.take(0) =~= Seq::empty());
    assert(others.deep_view() =~= Seq::empty());

    for capability in it: capabilities
        invariant
            it.seq() == items,
            all == capabilities.deep_view(),
            all.len() == items.len(),
            forall|k: int| 0 <= k < items.len() ==> all[k] == (#[trigger] items[k])@,
            first_repeat(all.take(it.index() as int)) is None,
            implementation.deep_view() == implementation_of(all.take(it.index() as int)),
            sasl.deep_view() == sasl_of(all.take(it.index() as int)),
            sieve.deep_view() == sieve_of(all.take(it.index() as int)),
            start_tls == (lookup(all.take(it.index() as int), CapabilityKey::StartTls) is Some),
            max_redirects == max_redirects_of(all.take(it.index() as int)),
            notify.deep_view() == notify_of(all.take(it.index() as int)),
            language.deep_view() == language_of(all.take(it.index() as int)),
            owner.deep_view() == owner_of(all.take(it.index() as int)),
            version == version_of(all.take(it.index() as int)),
            others.deep_view() == unknown_entries(all.take(it.index() as int)),
    {
        let ghost i = it.index() as int;
        let ghost before = all.take(i);
        let ghost after = all.take(i + 1);
        proof {
            assert(after.drop_last() =~= before);
            assert(after.last() == capability@);
            lemma_repeat_prefix(all, i + 1);
            lemma_lookup_key(before, capability@.key());
        }
        match capability {
            Capability::Implementation(value) => {
                if implementation.is_some() {
                    return Err(duplicate("IMPLEMENTATION"));
                }
                implementation = Some(value);
            },
            Capability::Sasl(value) => {
                if sasl.is_some() {
                    return Err(duplicate("SASL"));
                }
                sasl = Some(value);
            },
            Capability::Sieve(value) => {
                if sieve.is_some() {
                    return Err(duplicate("SIEVE"));
                }
                sieve = Some(value);
            },
            Capability::StartTls => {
                if start_tls {
                    return Err(duplicate("STARTTLS"));
                }
                start_tls = true;
            },
            Capability::MaxRedirects(value) => {
                if max_redirects.is_some() {
                    return Err(duplicate("MAXREDIRECTS"));
                }
                max_redirects = Some(value);
            },
            Capability::Notify(value) => {
                if notify.is_some() {
                    return Err(duplicate("NOTIFY"));
                }
                notify = Some(value);
            },
            Capability::Language(value) => {
                if language.is_some() {
                    return Err(duplicate("LANGUAGE"));
                }
                language = Some(value);
            },
            Capability::Owner(value) => {
                if owner.is_some() {
                    return Err(duplicate("OWNER"));
                }
                owner = Some(value);
            },
            Capability::Version(value) => {
                if version.is_some() {
                    return Err(duplicate("VERSION"));
                }
                version = Some(value);
            },
            Capability::Unknown(name, value) => {
                proof {
                    lemma_unknown_lookup(before, name@);
                }
                if has_name(&others, &name) {
                    return Err(CapabilitiesError::DuplicateCapability { capability: name });
                }
                let ghost previous = others;
                let entry = (name, value);
                others.push(entry);
                proof {
                    lemma_deep_view_push(previous, others, entry);
                }
            },
        }
    }

    proof {
        assert(all.take(all.len() as int) =~= all);
        lemma_unknown_distinct(all);
        lemma_lookup_key(all, CapabilityKey::Implementation);
        lemma_lookup_key(all, CapabilityKey::Sieve);
        lemma_lookup_key(all, CapabilityKey::Version);
    }
    let sasl = match sasl {
        Some(sasl) => sasl,
        None => {
            let empty: Vec<String> = Vec::new();
            assert(empty.deep_view() =~= Seq::empty());
            empty
        },
    };
    match (implementation, sieve, version) {
        (Some(implementation), Some(sieve), Some(version)) => Ok(
            Capabilities {
                implementation,
                sasl,
                sieve,
                start_tls,
                max_redirects,
                notify,
                language,
                owner,
                version,
                others,
            },
        ),
        (None, _, _) => Err(CapabilitiesError::MissingImplementation),
        (_, None, _) => Err(CapabilitiesError::MissingSieve),
        (_, _, None) => Err(CapabilitiesError::MissingVersion),
    }
}

/// The first repeat of a list lies in a prefix as soon as the prefix has a
/// repeat at all.
pub proof fn lemma_repeat_prefix(caps: Seq<CapabilityView>, n: int)
    requires
        0 <= n <= caps.len(),
    ensures
        first_repeat(caps.take(n)) is Some ==> first_repeat(caps) == first_repeat(caps.take(n)),
    decreases caps.len() - n,
{
    if n < caps.len() {
        lemma_repeat_prefix(caps, n + 1);
        assert(caps.take(n + 1).drop_last() =~= caps.take(n));
    } else {
        assert(caps.take(n) =~= caps);
    }
}

/// `caps` holds an entry under `key`.
pub open spec fn announces(caps: Seq<CapabilityView>, key: CapabilityKey) -> bool {
    exists|i: int| 0 <= i < caps.len() && (#[trigger] caps[i]).key() == key
}

/// The entry at `j` has the key of an earlier entry.
pub open spec fn repeats_at(caps: Seq<CapabilityView>, j: int) -> bool {
    0 <= j < caps.len() && exists|i: int| 0 <= i < j && (#[trigger] caps[i]).key() == caps[j].key()
}

/// `lookup` finds an entry exactly where one is announced.
pub proof fn lemma_lookup_announces(caps: Seq<CapabilityView>, key: CapabilityKey)
    ensures
        lookup(caps, key) is Some <==> announces(caps, key),
    decreases caps.len(),
{
    if caps.len() > 0 {
        let rest = caps.drop_last();
        lemma_lookup_announces(rest, key);
        if caps.last().key() == key {
            assert(caps[caps.len() - 1].key() == key);
        } else if announces(rest, key) {
            let i = choose|i: int| 0 <= i < rest.len() && (#[trigger] rest[i]).key() == key;
            assert(caps[i] == rest[i]);
        } else {
            assert forall|i: int| 0 <= i < caps.len() implies (#[trigger] caps[i]).key() != key by {
                if i < rest.len() {
                    assert(caps[i] == rest[i]);
                }
            }
        }
    }
}

/// `first_repeat` is the least position at which a key repeats, and `None`
/// where none does.
pub proof fn lemma_first_repeat(caps: Seq<CapabilityView>)
    ensures
        match first_repeat(caps) {
            Some(j) => repeats_at(caps, j) && forall|k: int| 0 <= k < j ==> !repeats_at(caps, k),
            None => forall|k: int| 0 <= k < caps.len() ==> !repeats_at(caps, k),
        },
    decreases caps.len(),
{
    if caps.len() > 0 {
        let rest = caps.drop_last();
        let last = caps.len() - 1;
        lemma_first_repeat(rest);
        lemma_lookup_announces(rest, caps.last().key());
        assert forall|k: int| 0 <= k < rest.len() implies (repeats_at(rest, k) <==> repeats_at(
            caps,
            k,
        )) by {
            assert(caps[k] == rest[k]);
            if repeats_at(rest, k) {
                let i = choose|i: int| 0 <= i < k && (#[trigger] rest[i]).key() == rest[k].key();
                assert(caps[i] == rest[i]);
            }
            if repeats_at(caps, k) {
                let i = choose|i: int| 0 <= i < k && (#[trigger] caps[i]).key() == caps[k].key();
                assert(caps[i] == rest[i]);
            }
        }
        if first_repeat(rest) is None {
            if announces(rest, caps.last().key()) {
                let i = choose|i: int|
                    0 <= i < rest.len() && (#[trigger] rest[i]).key() == caps.last().key();
                assert(caps[i] == rest[i]);
                assert(repeats_at(caps, last));
            } else {
                assert forall|i: int| 0 <= i < last implies (#[trigger] caps[i]).key()
                    != caps[last].key() by {
                    assert(caps[i] == rest[i]);
                }
            }
        }
    }
}

/// An announcement in which some key occurs twice is refused as a
/// duplicate, and the error names the key of the earliest entry that repeats
/// an earlier one.
pub proof fn law_duplicate_key_is_reported(caps: Seq<CapabilityView>, i: int, j: int)
    requires
        0 <= i < j < caps.len(),
        caps[i].key() == caps[j].key(),
    ensures
        exists|first: int|
            0 <= first <= j && #[trigger] repeats_at(caps, first) && validate(caps) == Err::<
                CapabilitiesView,
                CapabilitiesErrorView,
            >(CapabilitiesErrorView::DuplicateCapability { capability: caps[first].key().name() }),
{
    lemma_first_repeat(caps);
    assert(repeats_at(caps, j));
    let first = first_repeat(caps)->0;
    assert(repeats_at(caps, first));
}

/// An announcement in which exactly one key occurs twice is refused with
/// the name of that key.
pub proof fn law_duplicate_key_is_named(caps: Seq<CapabilityView>, key: CapabilityKey)
    requires
        exists|j: int| #[trigger] repeats_at(caps, j) && caps[j].key() == key,
        forall|j: int| #[trigger] repeats_at(caps, j) ==> caps[j].key() == key,
    ensures
        validate(caps) == Err::<CapabilitiesView, CapabilitiesErrorView>(
            CapabilitiesErrorView::DuplicateCapability { capability: key.name() },
        ),
{
    lemma_first_repeat(caps);
    let j = choose|j: int| #[trigger] repeats_at(caps, j) && caps[j].key() == key;
    assert(repeats_at(caps, j));
}

/// An announcement without a repeated key that lacks `IMPLEMENTATION` is
/// refused for that.
pub proof fn law_missing_implementation(caps: Seq<CapabilityView>)
    requires
        forall|j: int| !repeats_at(caps, j),
        !announces(caps, CapabilityKey::Implementation),
    ensures
        validate(caps) == Err::<CapabilitiesView, CapabilitiesErrorView>(
            CapabilitiesErrorView::MissingImplementation,
        ),
{
    lemma_first_repeat(caps);
    lemma_lookup_announces(caps, CapabilityKey::Implementation);
}

/// An announcement without a repeated key that has `IMPLEMENTATION` and
/// lacks `SIEVE` is refused for that.
pub proof fn law_missing_sieve(caps: Seq<CapabilityView>)
    requires
        forall|j: int| !repeats_at(caps, j),
        announces(caps, CapabilityKey::Implementation),
        !announces(caps, CapabilityKey::Sieve),
    ensures
        validate(caps) == Err::<CapabilitiesView, CapabilitiesErrorView>(
            CapabilitiesErrorView::MissingSieve,
        ),
{
    lemma_first_repeat(caps);
    lemma_lookup_announces(caps, CapabilityKey::Implementation);
    lemma_lookup_key(caps, CapabilityKey::Implementation);
    lemma_lookup_announces(caps, CapabilityKey::Sieve);
}

/// An announcement without a repeated key that has `IMPLEMENTATION` and
/// `SIEVE` and lacks `VERSION` is refused for that.
pub proof fn law_missing_version(caps: Seq<CapabilityView>)
    requires
        forall|j: int| !repeats_at(caps, j),
        announces(caps, CapabilityKey::Implementation),
        announces(caps, CapabilityKey::Sieve),
        !announces(caps, CapabilityKey::Version),
    ensures
        validate(caps) == Err::<CapabilitiesView, CapabilitiesErrorView>(
            CapabilitiesErrorView::MissingVersion,
        ),
{
    lemma_first_repeat(caps);
    lemma_lookup_announces(caps, CapabilityKey::Implementation);
    lemma_lookup_key(caps, CapabilityKey::Implementation);
    lemma_lookup_announces(caps, CapabilityKey::Sieve);
    lemma_lookup_key(caps, CapabilityKey::Sieve);
    lemma_lookup_announces(caps, CapabilityKey::Version);
}

/// What `lookup` finds is an entry of the list.
pub proof fn lemma_lookup_entry(caps: Seq<CapabilityView>, key: CapabilityKey)
    ensures
        lookup(caps, key) matches Some(found) ==> caps.contains(found),
    decreases caps.len(),
{
    if caps.len() > 0 {
        if caps.last().key() == key {
            assert(caps[caps.len() - 1] == caps.last());
        } else {
            lemma_lookup_entry(caps.drop_last(), key);
            if let Some(found) = lookup(caps.drop_last(), key) {
                let i = choose|i: int| 0 <= i < caps.drop_last().len() && caps.drop_last()[i] == found;
                assert(caps[i] == found);
            }
        }
    }
}

/// The order of an announcement does not matter to what is announced
/// under a key: two announcements without a repeated key that hold the
/// same entries have the same entry under every key.
pub proof fn law_order_does_not_matter(
    first: Seq<CapabilityView>,
    second: Seq<CapabilityView>,
    key: CapabilityKey,
)
    requires
        forall|j: int| !repeats_at(first, j),
        forall|j: int| !repeats_at(second, j),
        forall|c: CapabilityView| first.contains(c) <==> second.contains(c),
    ensures
        lookup(first, key) == lookup(second, key),
{
    lemma_lookup_entry(first, key);
    lemma_lookup_entry(second, key);
    lemma_lookup_key(first, key);
    lemma_lookup_key(second, key);
    lemma_lookup_announces(first, key);
    lemma_lookup_announces(second, key);
    if let Some(found) = lookup(first, key) {
        assert(second.contains(found));
        let i = choose|i: int| 0 <= i < second.len() && second[i] == found;
        assert(second[i].key() == key);
        assert(announces(second, key));
        let other = lookup(second, key)->0;
        let j = choose|j: int| 0 <= j < second.len() && second[j] == other;
        if i < j {
            assert(repeats_at(second, j));
        } else if j < i {
            assert(repeats_at(second, i));
        }
    } else if let Some(found) = lookup(second, key) {
        assert(first.contains(found));
        let i = choose|i: int| 0 <= i < first.len() && first[i] == found;
        assert(first[i].key() == key);
        assert(announces(first, key));
    }
}

/// The order of an announcement does not matter to the record, but for
/// the order in which the record lists the capabilities that the library
/// does not know: two announcements without a repeated key that hold the
/// same entries are both refused for the same reason, or both accepted
/// with the same fields.
pub proof fn law_record_ignores_order(first: Seq<CapabilityView>, second: Seq<CapabilityView>)
    requires
        forall|j: int| !repeats_at(first, j),
        forall|j: int| !repeats_at(second, j),
        forall|c: CapabilityView| first.contains(c) <==> second.contains(c),
    ensures
        validate(first) is Err ==> validate(second) == validate(first),
        validate(first) matches Ok(record) ==> validate(second) == Ok::<
            CapabilitiesView,
            CapabilitiesErrorView,
        >(CapabilitiesView { others: unknown_entries(second), ..record }),
{
    lemma_first_repeat(first);
    lemma_first_repeat(second);
    law_order_does_not_matter(first, second, CapabilityKey::Implementation);
    law_order_does_not_matter(first, second, CapabilityKey::Sasl);
    law_order_does_not_matter(first, second, CapabilityKey::Sieve);
    law_order_does_not_matter(first, second, CapabilityKey::StartTls);
    law_order_does_not_matter(first, second, CapabilityKey::MaxRedirects);
    law_order_does_not_matter(first, second, CapabilityKey::Notify);
    law_order_does_not_matter(first, second, CapabilityKey::Language);
    law_order_does_not_matter(first, second, CapabilityKey::Owner);
    law_order_does_not_matter(first, second, CapabilityKey::Version);
}

/// An announcement without a repeated key that has the three required keys
/// is accepted.
pub proof fn law_complete_announcement_is_accepted(caps: Seq<CapabilityView>)
    requires
        forall|j: int| !repeats_at(caps, j),
        announces(caps, CapabilityKey::Implementation),
        announces(caps, CapabilityKey::Sieve),
        announces(caps, CapabilityKey::Version),
    ensures
        validate(caps) is Ok,
        !announces(caps, CapabilityKey::Sasl) ==> validate(caps)->Ok_0.sasl == Seq::<
            Seq<char>,
        >::empty(),
        validate(caps)->Ok_0.start_tls == announces(caps, CapabilityKey::StartTls),
        validate(caps)->Ok_0.wf(),
{
    lemma_first_repeat(caps);
    lemma_lookup_announces(caps, CapabilityKey::Implementation);
    lemma_lookup_key(caps, CapabilityKey::Implementation);
    lemma_lookup_announces(caps, CapabilityKey::Sieve);
    lemma_lookup_key(caps, CapabilityKey::Sieve);
    lemma_lookup_announces(caps, CapabilityKey::Version);
    lemma_lookup_key(caps, CapabilityKey::Version);
    lemma_lookup_announces(caps, CapabilityKey::Sasl);
    lemma_lookup_announces(caps, CapabilityKey::StartTls);
    lemma_unknown_distinct(caps);
}

} // verus!
