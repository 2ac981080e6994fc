use std::borrow::Cow;

use cosmic_sys_monitor::i18n::{
    init, init_result, loader, loading_result, LocalizationError, DOMAIN, FALLBACK_LANGUAGE,
};
use i18n_embed::{I18nAssets, I18nEmbedError, LanguageLoader};

struct Files(Vec<(String, Vec<u8>)>);

impl I18nAssets for Files {
    fn get_files(&self, file_path: &str) -> Vec<Cow<'_, [u8]>> {
        self.0
            .iter()
            .filter(|(p, _)| p == file_path)
            .map(|(_, d)| Cow::Borrowed(d.as_slice()))
            .collect()
    }

    fn filenames_iter(&self) -> Box<dyn Iterator<Item = String> + '_> {
        Box::new(self.0.iter().map(|(p, _)| p.clone()))
    }
}

fn english() -> Files {
    Files(vec![
        (format!("{}/{}.ftl", FALLBACK_LANGUAGE, DOMAIN), b"settings = Settings\n".to_vec()),
        (format!("pt-BR/{}.ftl", DOMAIN), b"settings = Configuracoes\n".to_vec()),
    ])
}

#[test]
fn init_loads_the_fallback_language() {
    assert!(init(&english()).is_ok());
    assert!(init(&english()).is_ok());
}

#[test]
fn init_fails_without_the_fallback_file() {
    assert!(matches!(
        init(&Files(vec![])),
        Err(LocalizationError::LoadFailed(I18nEmbedError::LanguageNotAvailable(_, _)))
    ));
}

#[test]
fn init_fails_on_a_file_that_is_not_utf8() {
    let bad = Files(vec![(format!("en/{}.ftl", DOMAIN), vec![0xff, 0xfe])]);
    assert!(matches!(
        init(&bad),
        Err(LocalizationError::LoadFailed(I18nEmbedError::ErrorParsingFileUtf8(_, _)))
    ));
}

#[test]
fn loader_has_only_the_fallback_loaded() {
    let l = loader(&english()).unwrap();
    let f = l.fluent_loader();
    assert_eq!(f.fallback_language().to_string(), "en");
    assert_eq!(f.domain(), "cosmic-sys-monitor");
    let current: Vec<String> = f.current_languages().iter().map(|l| l.to_string()).collect();
    assert_eq!(current, vec!["en".to_string()]);
    assert_eq!(f.current_language().to_string(), "en");
    assert!(f.has("settings"));
}

#[test]
fn loading_result_maps_the_outcome() {
    let l = loader(&english()).unwrap();
    assert!(matches!(
        loading_result(l, Err(I18nEmbedError::RequestedLanguagesEmpty)),
        Err(LocalizationError::LoadFailed(I18nEmbedError::RequestedLanguagesEmpty))
    ));
    let l = loader(&english()).unwrap();
    let kept = loading_result(l, Ok(())).unwrap();
    assert_eq!(kept.fluent_loader().domain(), DOMAIN);
}

#[test]
fn init_result_drops_the_loader_and_keeps_errors() {
    assert!(matches!(init_result(loader(&english())), Ok(())));
    assert!(matches!(
        init_result(Err(LocalizationError::LoadFailed(I18nEmbedError::RequestedLanguagesEmpty))),
        Err(LocalizationError::LoadFailed(I18nEmbedError::RequestedLanguagesEmpty))
    ));
}
