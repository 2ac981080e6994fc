use vstd::prelude::*;

use i18n_embed::fluent::FluentLanguageLoader;
use i18n_embed::unic_langid::LanguageIdentifier;
use i18n_embed::{I18nAssets, I18nEmbedError, LanguageLoader};

verus! {

/// The loader of the Fluent translations of i18n_embed.
#[verifier::external_type_specification]
#[verifier::external_body]
pub struct ExFluentLanguageLoader(FluentLanguageLoader);

/// A language identifier of unic_langid, as i18n_embed re-exports it.
#[verifier::external_type_specification]
#[verifier::external_body]
pub struct ExLanguageIdentifier(LanguageIdentifier);

/// The error type of i18n_embed.
#[verifier::external_type_specification]
#[verifier::external_body]
pub struct ExI18nEmbedError(I18nEmbedError);

/// Whether unic_langid reads `tag` as a language identifier.
pub uninterp spec fn language_tag_parses(tag: Seq<char>) -> bool;

/// `c` is an ASCII letter.
pub open spec fn is_ascii_letter(c: char) -> bool {
    ('a' <= c && c <= 'z') || ('A' <= c && c <= 'Z')
}

/// `tag` is a bare language subtag of two or three ASCII letters, such as
/// `en` or `por`.
pub open spec fn is_short_language_subtag(tag: Seq<char>) -> bool {
    2 <= tag.len() <= 3 && forall|i: int| 0 <= i < tag.len() ==> is_ascii_letter(#[trigger] tag[i])
}

/// A language identifier together with the tag it was read from.
pub struct Language {
    id: LanguageIdentifier,
    tag: Ghost<Seq<char>>,
}

impl Language {
    /// The tag the identifier was read from.
    pub closed spec fn tag(&self) -> Seq<char> {
        self.tag@
    }
}

/// A Fluent loader of i18n_embed together with what was handed to it: the
/// domain, the tag of the fallback language, and the tags of the languages
/// loaded into it. Only the functions of this module that call i18n_embed set
/// these.
pub struct Localizer {
    loader: FluentLanguageLoader,
    domain: Ghost<Seq<char>>,
    fallback: Ghost<Seq<char>>,
    loaded: Ghost<Seq<Seq<char>>>,
}

impl Localizer {
    /// The domain the loader was made for.
    pub closed spec fn domain_name(&self) -> Seq<char> {
        self.domain@
    }

    /// The tag of the loader's fallback language.
    pub closed spec fn fallback_tag(&self) -> Seq<char> {
        self.fallback@
    }

    /// The tags of the languages loaded into the loader, in order.
    pub closed spec fn loaded_tags(&self) -> Seq<Seq<char>> {
        self.loaded@
    }

    /// The Fluent loader itself.
    pub closed spec fn fluent(&self) -> FluentLanguageLoader {
        self.loader
    }

    /// The Fluent loader, to look translations up in.
    pub fn fluent_loader(&self) -> (l: &FluentLanguageLoader)
        ensures
            *l == self.fluent(),
    {
        &self.loader
    }
}

/// Calls `str::parse` into unic_langid's `LanguageIdentifier` (its `FromStr`
/// impl), `None` where that gives an error, and keeps the tag beside the
/// identifier. Claimed: whether it succeeds depends on the tag alone, and a
/// bare language subtag of two or three ASCII letters is read (the parser
/// splits at `-` and `_`, and `Language::from_bytes` takes 2, 3 or 5 to 8
/// ASCII letters).
#[verifier::external_body]
pub(crate) fn parse_language_tag(tag: &str) -> (r: Option<Language>)
    ensures
        r is Some <==> language_tag_parses(tag@),
        is_short_language_subtag(tag@) ==> r is Some,
        r matches Some(l) ==> l.tag() == tag@,
{
    match tag.parse::<LanguageIdentifier>() {
        Ok(id) => Some(Language { id, tag: Ghost(tag@) }),
        Err(_) => None,
    }
}

/// Calls i18n_embed's `FluentLanguageLoader::new`, which makes a loader for
/// `domain` with the fallback language and loads nothing, and records the
/// domain and the fallback's tag beside it.
#[verifier::external_body]
pub(crate) fn new_localizer(domain: &str, fallback: Language) -> (l: Localizer)
    ensures
        l.domain_name() == domain@,
        l.fallback_tag() == fallback.tag(),
        l.loaded_tags() == Seq::<Seq<char>>::empty(),
{
    Localizer {
        loader: FluentLanguageLoader::new(domain, fallback.id),
        domain: Ghost(domain@),
        fallback: fallback.tag,
        loaded: Ghost(Seq::empty()),
    }
}

/// Calls i18n_embed's `LanguageLoader::load_fallback_language`, which loads
/// the loader's fallback language, and only it, from `assets`; on an error it
/// leaves the loader as it was. Nothing is claimed of when it succeeds.
#[verifier::external_body]
pub(crate) fn load_fallback<A: I18nAssets>(l: &mut Localizer, assets: &A) -> (r: Result<
    (),
    I18nEmbedError,
>)
    ensures
        final(l).domain_name() == old(l).domain_name(),
        final(l).fallback_tag() == old(l).fallback_tag(),
        r is Ok ==> final(l).loaded_tags() == seq![old(l).fallback_tag()],
        r is Err ==> final(l).loaded_tags() == old(l).loaded_tags(),
{
    match l.loader.load_fallback_language(assets) {
        Ok(()) => {
            l.loaded = Ghost(seq![l.fallback@]);
            Ok(())
        },
        Err(e) => Err(e),
    }
}

} // verus!
