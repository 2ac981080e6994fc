use vstd::prelude::*;

use crate::fluent::{
    is_short_language_subtag, load_fallback, new_localizer, parse_language_tag, Localizer,
};
use i18n_embed::{I18nAssets, I18nEmbedError};

verus! {

/// The translation domain: the name of the `.ftl` file of each language.
pub const DOMAIN: &'static str = "cosmic-sys-monitor";

/// The language whose translations are always loaded.
pub const FALLBACK_LANGUAGE: &'static str = "en";

/// The translations could not be loaded: i18n_embed's error.
#[derive(Debug)]
pub enum LocalizationError {
    LoadFailed(I18nEmbedError),
}

/// The fallback language's tag is read as a language identifier.
pub proof fn lemma_fallback_language_parses()
    ensures
        is_short_language_subtag(FALLBACK_LANGUAGE@),
{
    reveal_strlit("en");
    assert(FALLBACK_LANGUAGE@ == "en"@);
}

/// What loading into `l` gives, from the outcome of i18n_embed's loading:
/// the loader on success, the error otherwise.
pub fn loading_result(l: Localizer, outcome: Result<(), I18nEmbedError>) -> (r: Result<
    Localizer,
    LocalizationError,
>)
    ensures
        outcome is Ok ==> r == Ok::<Localizer, LocalizationError>(l),
        outcome matches Err(e) ==> r == Err::<Localizer, LocalizationError>(
            LocalizationError::LoadFailed(e),
        ),
{
    match outcome {
        Ok(()) => Ok(l),
        Err(e) => Err(LocalizationError::LoadFailed(e)),
    }
}

/// A loader for the applet's domain with the fallback language's translations
/// from `assets` loaded, and no other language; or the error of that loading.
pub fn loader<A: I18nAssets>(assets: &A) -> (r: Result<Localizer, LocalizationError>)
    ensures
        r matches Ok(l) ==> {
            &&& l.domain_name() == DOMAIN@
            &&& l.fallback_tag() == FALLBACK_LANGUAGE@
            &&& l.loaded_tags() == seq![FALLBACK_LANGUAGE@]
        },
{
    proof {
        lemma_fallback_language_parses();
    }
    let lang = parse_language_tag(FALLBACK_LANGUAGE).unwrap();
    let mut l = new_localizer(DOMAIN, lang);
    let outcome = load_fallback(&mut l, assets);
    loading_result(l, outcome)
}

/// What `init` gives for the result of `loader`: nothing on success, the
/// same error otherwise.
pub fn init_result(loaded: Result<Localizer, LocalizationError>) -> (r: Result<
    (),
    LocalizationError,
>)
    ensures
        r == match loaded {
            Ok(_) => Ok::<(), LocalizationError>(()),
            Err(e) => Err(e),
        },
{
    match loaded {
        Ok(_) => Ok(()),
        Err(e) => Err(e),
    }
}

/// Loads the applet's translations from `assets` once, to check that they
/// load; the loader is dropped.
pub fn init<A: I18nAssets>(assets: &A) -> (r: Result<(), LocalizationError>) {
    init_result(loader(assets))
}

} // verus!
