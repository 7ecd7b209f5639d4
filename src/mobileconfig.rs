//! The font installation profile and its rendering as a property list.
use crate::error::ProfileError;
use crate::path::{base_name, file_base_name};
use crate::plist::{base64_len, base64_of, escape_markup, escape_text, wrap_lines, wrapped_base64};
use crate::uuid::{format_uuid, is_canonical_uuid, lemma_uuid_text_distinct, random_u64, uuid_text};
use vstd::prelude::*;

verus! {

/// One installable font.
#[derive(Debug)]
pub struct FontPayload {
    pub name: String,
    pub data: Vec<u8>,
    pub uuid: String,
    pub identifier: String,
}

pub struct FontView {
    pub name: Seq<char>,
    pub data: Seq<u8>,
    pub uuid: Seq<char>,
    pub identifier: Seq<char>,
}

impl View for FontPayload {
    type V = FontView;

    open spec fn view(&self) -> FontView {
        FontView {
            name: self.name@,
            data: self.data@,
            uuid: self.uuid@,
            identifier: self.identifier@,
        }
    }
}

/// A profile: its identity and its font entries in the order they were added.
/// Entry `k` (from zero) takes its identifier from `uuid_seed` and the counter
/// `k + 1`; the profile's own identifier has the counter `0`.
#[derive(Debug)]
pub struct MobileConfig {
    pub payload_identifier: String,
    pub payload_display_name: String,
    pub payload_uuid: String,
    pub consent_text: String,
    pub fonts: Vec<FontPayload>,
    pub uuid_seed: u64,
}

pub struct ConfigView {
    pub payload_identifier: Seq<char>,
    pub payload_display_name: Seq<char>,
    pub payload_uuid: Seq<char>,
    pub consent_text: Seq<char>,
    pub fonts: Seq<FontView>,
    pub uuid_seed: u64,
}

impl View for MobileConfig {
    type V = ConfigView;

    open spec fn view(&self) -> ConfigView {
        ConfigView {
            payload_identifier: self.payload_identifier@,
            payload_display_name: self.payload_display_name@,
            payload_uuid: self.payload_uuid@,
            consent_text: self.consent_text@,
            fonts: self.fonts@.map_values(|f: FontPayload| f@),
            uuid_seed: self.uuid_seed,
        }
    }
}

/// How many entries a profile can hold: entry counters stay below `2^48`, the
/// range of the identifier's last group.
pub const MAX_FONTS: u64 = 0xFFFF_FFFF_FFFE;

pub const CONSENT_TEXT: &'static str = "This profile will install custom fonts on your iOS device.";

pub const FALLBACK_FONT_NAME: &'static str = "Unknown";

/// The identifier of a font entry: `{profile}.{entry uuid}.fontpayload`.
pub open spec fn font_identifier(profile: Seq<char>, uuid: Seq<char>) -> Seq<char> {
    profile + "."@ + uuid + ".fontpayload"@
}

/// The name an entry gets: the explicit one, else the path's base name, else
/// the fallback label.
pub open spec fn entry_name(path: Seq<char>, explicit: Option<Seq<char>>) -> Seq<char> {
    match explicit {
        Some(n) => n,
        None => if base_name(path).len() > 0 {
            base_name(path)
        } else {
            FALLBACK_FONT_NAME@
        },
    }
}

/// The entries' identifiers come from the seed and their positions, and the
/// entry identifiers are composed from the profile's.
pub open spec fn well_formed(c: ConfigView) -> bool {
    &&& c.payload_uuid == uuid_text(c.uuid_seed, 0)
    &&& c.fonts.len() <= MAX_FONTS
    &&& forall|i: int|
        0 <= i < c.fonts.len() ==> {
            &&& (#[trigger] c.fonts[i]).uuid == uuid_text(c.uuid_seed, (i + 1) as u64)
            &&& c.fonts[i].identifier == font_identifier(c.payload_identifier, c.fonts[i].uuid)
        }
}

/// Every entry's data can be base64-encoded within `usize`.
pub open spec fn encodable(c: ConfigView) -> bool {
    forall|i: int| 0 <= i < c.fonts.len() ==> base64_len((#[trigger] c.fonts[i]).data.len()) <= usize::MAX
}

pub const DOC_HEAD: &'static str = "<?xml version=\"1.0\" encoding=\"UTF-8\" ?>\n<!DOCTYPE plist PUBLIC \"-//Apple//DTD PLIST 1.0//EN\"\n    \"http://www.apple.com/DTDs/PropertyList-1.0.dtd\">\n<plist version=\"1.0\">\n<dict>\n  <key>ConsentText</key>\n  <dict>\n    <key>default</key>\n    <string>";

pub const CONTENT_OPEN: &'static str = "</string>\n  </dict>\n  <key>PayloadContent</key>\n  <array>\n";

pub const FONT_OPEN: &'static str = "      <dict>\n        <key>Font</key>\n        <data>";

pub const FONT_NAME: &'static str = "</data>\n        <key>Name</key>\n        <string>";

pub const FONT_IDENTIFIER: &'static str = "</string>\n        <key>PayloadDescription</key>\n        <string>Configures Font settings</string>\n        <key>PayloadDisplayName</key>\n        <string>Fonts</string>\n        <key>PayloadIdentifier</key>\n        <string>";

pub const FONT_UUID: &'static str = "</string>\n        <key>PayloadType</key>\n        <string>com.apple.font</string>\n        <key>PayloadUUID</key>\n        <string>";

pub const FONT_CLOSE: &'static str = "</string>\n        <key>PayloadVersion</key>\n        <integer>1</integer>\n      </dict>\n";

pub const CONTENT_CLOSE: &'static str = "  </array>\n  <key>PayloadDisplayName</key>\n  <string>";

pub const PROFILE_IDENTIFIER: &'static str = "</string>\n  <key>PayloadIdentifier</key>\n  <string>";

pub const PROFILE_UUID: &'static str = "</string>\n  <key>PayloadRemovalDisallowed</key>\n  <false />\n  <key>PayloadType</key>\n  <string>Configuration</string>\n  <key>PayloadUUID</key>\n  <string>";

pub const DOC_TAIL: &'static str = "</string>\n  <key>PayloadVersion</key>\n  <integer>1</integer>\n</dict>\n</plist>\n";

/// The dictionary of one font entry inside `PayloadContent`.
pub open spec fn font_dict(f: FontView) -> Seq<char> {
    FONT_OPEN@ + wrap_lines(base64_of(f.data)) + FONT_NAME@ + escape_text(f.name)
        + FONT_IDENTIFIER@ + escape_text(f.identifier) + FONT_UUID@ + escape_text(f.uuid)
        + FONT_CLOSE@
}

/// The font dictionaries one after another, in the entries' order.
pub open spec fn font_dicts(fonts: Seq<FontView>) -> Seq<char>
    decreases fonts.len(),
{
    if fonts.len() == 0 {
        Seq::empty()
    } else {
        font_dicts(fonts.drop_last()) + font_dict(fonts.last())
    }
}

pub open spec fn name_view(n: Option<String>) -> Option<Seq<char>> {
    match n {
        Some(s) => Some(s@),
        None => None,
    }
}

/// The entry that adding `data` read from `path` appends to `c`.
pub open spec fn next_entry(
    c: ConfigView,
    path: Seq<char>,
    data: Seq<u8>,
    explicit: Option<Seq<char>>,
) -> FontView {
    let uuid = uuid_text(c.uuid_seed, (c.fonts.len() + 1) as u64);
    FontView {
        name: entry_name(path, explicit),
        data,
        uuid,
        identifier: font_identifier(c.payload_identifier, uuid),
    }
}

/// `c` with `e` appended to its entries.
pub open spec fn with_entry(c: ConfigView, e: FontView) -> ConfigView {
    ConfigView {
        payload_identifier: c.payload_identifier,
        payload_display_name: c.payload_display_name,
        payload_uuid: c.payload_uuid,
        consent_text: c.consent_text,
        fonts: c.fonts.push(e),
        uuid_seed: c.uuid_seed,
    }
}

/// Everything before the first font dictionary.
pub open spec fn document_head(c: ConfigView) -> Seq<char> {
    DOC_HEAD@ + escape_text(c.consent_text) + CONTENT_OPEN@
}

/// Everything after the last font dictionary.
pub open spec fn document_tail(c: ConfigView) -> Seq<char> {
    CONTENT_CLOSE@ + escape_text(c.payload_display_name) + PROFILE_IDENTIFIER@ + escape_text(
        c.payload_identifier,
    ) + PROFILE_UUID@ + escape_text(c.payload_uuid) + DOC_TAIL@
}

/// The whole rendered profile.
pub open spec fn document(c: ConfigView) -> Seq<char> {
    document_head(c) + font_dicts(c.fonts) + document_tail(c)
}

/// Rendering reads nothing but the profile's contents: two profiles with the
/// same contents, or one profile rendered twice, give the same text.
pub proof fn lemma_render_deterministic(a: MobileConfig, b: MobileConfig)
    requires
        a@ == b@,
    ensures
        document(a@) == document(b@),
{
}

proof fn lemma_font_dicts_flatten(fonts: Seq<FontView>)
    ensures
        font_dicts(fonts) == fonts.map_values(|f: FontView| font_dict(f)).flatten(),
    decreases fonts.len(),
{
    let dicts = fonts.map_values(|f: FontView| font_dict(f));
    if fonts.len() == 0 {
        assert(dicts =~= Seq::<Seq<char>>::empty());
    } else {
        lemma_font_dicts_flatten(fonts.drop_last());
        let prefix = fonts.drop_last().map_values(|f: FontView| font_dict(f));
        assert(dicts =~= prefix.push(font_dict(fonts.last())));
        prefix.lemma_flatten_push(font_dict(fonts.last()));
    }
}

/// The font array of the document holds one dictionary per entry, each
/// rendered from that entry alone, in the entries' order.
pub proof fn lemma_one_dict_per_entry(c: ConfigView)
    ensures
        document(c) == document_head(c) + c.fonts.map_values(|f: FontView| font_dict(f)).flatten()
            + document_tail(c),
        c.fonts.map_values(|f: FontView| font_dict(f)).len() == c.fonts.len(),
{
    lemma_font_dicts_flatten(c.fonts);
}

/// Adding an entry puts exactly its dictionary at the end of the font array
/// and leaves the rest of the document as it was.
pub proof fn lemma_add_appends_dict(c: ConfigView, e: FontView)
    ensures
        document(with_entry(c, e)) == document_head(c) + font_dicts(c.fonts) + font_dict(e)
            + document_tail(c),
{
    let d = with_entry(c, e);
    assert(d.fonts.drop_last() =~= c.fonts);
}

/// In a well-formed profile no two identifiers are equal: neither two
/// entries' nor an entry's and the profile's.
pub proof fn lemma_identifiers_distinct(c: ConfigView)
    requires
        well_formed(c),
    ensures
        forall|i: int, j: int|
            0 <= i < c.fonts.len() && 0 <= j < c.fonts.len() && i != j ==> #[trigger] c.fonts[i].uuid
                != #[trigger] c.fonts[j].uuid,
        forall|i: int| 0 <= i < c.fonts.len() ==> #[trigger] c.fonts[i].uuid != c.payload_uuid,
{
    assert forall|i: int, j: int|
        0 <= i < c.fonts.len() && 0 <= j < c.fonts.len() && i != j implies #[trigger] c.fonts[i].uuid
        != #[trigger] c.fonts[j].uuid by {
        lemma_uuid_text_distinct(c.uuid_seed, (i + 1) as u64, (j + 1) as u64);
    }
    assert forall|i: int| 0 <= i < c.fonts.len() implies #[trigger] c.fonts[i].uuid
        != c.payload_uuid by {
        lemma_uuid_text_distinct(c.uuid_seed, (i + 1) as u64, 0);
    }
}

impl MobileConfig {
    /// A profile with no entries whose identifiers derive from `seed`.
    pub fn with_seed(display_name: String, identifier: String, seed: u64) -> (r: Self)
        ensures
            r@.payload_display_name == display_name@,
            r@.payload_identifier == identifier@,
            r@.consent_text == CONSENT_TEXT@,
            r@.uuid_seed == seed,
            r@.fonts.len() == 0,
            is_canonical_uuid(r@.payload_uuid),
            well_formed(r@),
    {
        MobileConfig {
            payload_identifier: identifier,
            payload_display_name: display_name,
            payload_uuid: format_uuid(seed, 0),
            consent_text: String::from_str(CONSENT_TEXT),
            fonts: Vec::new(),
            uuid_seed: seed,
        }
    }

    /// A profile with no entries and a freshly drawn identifier seed.
    pub fn new(display_name: String, identifier: String) -> (r: Self)
        ensures
            r@.payload_display_name == display_name@,
            r@.payload_identifier == identifier@,
            r@.consent_text == CONSENT_TEXT@,
            r@.fonts.len() == 0,
            is_canonical_uuid(r@.payload_uuid),
            well_formed(r@),
    {
        let seed = random_u64();
        Self::with_seed(display_name, identifier, seed)
    }

    /// Renders the profile as a property-list document.
    pub fn generate_xml(&self) -> (r: String)
        requires
            encodable(self@),
        ensures
            r@ == document(self@),
    {
        let ghost v = self@;
        let mut xml = String::new();
        xml.append(DOC_HEAD);
        xml.append(escape_markup(self.consent_text.as_str()).as_str());
        xml.append(CONTENT_OPEN);
        let n = self.fonts.len();
        let mut i: usize = 0;
        while i < n
            invariant
                v == self@,
                n == self.fonts@.len(),
                i <= n,
                encodable(v),
                xml@ == document_head(v) + font_dicts(v.fonts.take(i as int)),
            decreases n - i,
        {
            let font = &self.fonts[i];
            let ghost f = v.fonts[i as int];
            assert(f == font@);
            assert(base64_len(f.data.len()) <= usize::MAX);
            let ghost before = xml@;
            xml.append(FONT_OPEN);
            xml.append(wrapped_base64(font.data.as_slice()).as_str());
            xml.append(FONT_NAME);
            xml.append(escape_markup(font.name.as_str()).as_str());
            xml.append(FONT_IDENTIFIER);
            xml.append(escape_markup(font.identifier.as_str()).as_str());
            xml.append(FONT_UUID);
            xml.append(escape_markup(font.uuid.as_str()).as_str());
            xml.append(FONT_CLOSE);
            proof {
                assert(v.fonts.take(i + 1).drop_last() =~= v.fonts.take(i as int));
                assert(v.fonts.take(i + 1).last() == f);
                assert(xml@ =~= before + font_dict(f));
            }
            i = i + 1;
        }
        assert(v.fonts.take(n as int) =~= v.fonts);
        xml.append(CONTENT_CLOSE);
        xml.append(escape_markup(self.payload_display_name.as_str()).as_str());
        xml.append(PROFILE_IDENTIFIER);
        xml.append(escape_markup(self.payload_identifier.as_str()).as_str());
        xml.append(PROFILE_UUID);
        xml.append(escape_markup(self.payload_uuid.as_str()).as_str());
        xml.append(DOC_TAIL);
        assert(xml@ =~= document(v));
        xml
    }
    /// Appends an entry for the font read from `font_path`. `contents` is the
    /// outcome of reading that file; on a failed read the profile is left as it
    /// was. The entry is named `font_name`, else after the path's base name.
    pub fn add_font(
        &mut self,
        font_path: &str,
        contents: Result<Vec<u8>, String>,
        font_name: Option<String>,
    ) -> (r: Result<(), ProfileError>)
        requires
            old(self).fonts.len() < MAX_FONTS,
        ensures
            match contents {
                Ok(data) => {
                    &&& r is Ok
                    &&& final(self)@ == with_entry(
                        old(self)@,
                        next_entry(old(self)@, font_path@, data@, name_view(font_name)),
                    )
                },
                Err(cause) => {
                    &&& *final(self) == *old(self)
                    &&& match r {
                        Err(ProfileError::FontReadError { path, cause: c }) => path@ == font_path@
                            && c == cause,
                        _ => false,
                    }
                },
            },
            well_formed(old(self)@) ==> well_formed(final(self)@),
    {
        let data = match contents {
            Ok(data) => data,
            Err(cause) => {
                return Err(ProfileError::FontReadError { path: String::from_str(font_path), cause });
            },
        };
        let name = match font_name {
            Some(n) => n,
            None => {
                let base = file_base_name(font_path);
                if base.unicode_len() > 0 {
                    base
                } else {
                    String::from_str(FALLBACK_FONT_NAME)
                }
            },
        };
        let counter = self.fonts.len() as u64 + 1;
        let uuid = format_uuid(self.uuid_seed, counter);
        let mut identifier = self.payload_identifier.clone();
        identifier.append(".");
        identifier.append(uuid.as_str());
        identifier.append(".fontpayload");
        let ghost old_view = self@;
        let entry = FontPayload { name, data, uuid, identifier };
        assert(entry@ == next_entry(old_view, font_path@, entry.data@, name_view(font_name)));
        self.fonts.push(entry);
        proof {
            assert(self@.fonts =~= old_view.fonts.push(entry@));
            if well_formed(old_view) {
                assert forall|i: int| 0 <= i < self@.fonts.len() implies {
                    &&& (#[trigger] self@.fonts[i]).uuid == uuid_text(self@.uuid_seed, (i + 1) as u64)
                    &&& self@.fonts[i].identifier == font_identifier(
                        self@.payload_identifier,
                        self@.fonts[i].uuid,
                    )
                } by {
                    if i < old_view.fonts.len() {
                        assert(self@.fonts[i] == old_view.fonts[i]);
                    }
                }
            }
        }
        Ok(())
    }

    /// The document to write out, or `EmptyProfile` when there is no entry.
    pub fn document_to_save(&self) -> (r: Result<String, ProfileError>)
        requires
            encodable(self@),
        ensures
            self.fonts@.len() == 0 <==> r matches Err(ProfileError::EmptyProfile),
            r is Ok <==> self.fonts@.len() > 0,
            r matches Ok(s) ==> s@ == document(self@),
    {
        if self.fonts.len() == 0 {
            Err(ProfileError::EmptyProfile)
        } else {
            Ok(self.generate_xml())
        }
    }
}

} // verus!
