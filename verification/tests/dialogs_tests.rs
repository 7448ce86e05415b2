use datafall::address::parse_download_url;
use datafall::app_model::{clean_cache_body, App, AppAction, AppInput};
use datafall::new_download::{
    EntryChange, NewDownload, NewDownloadEffects, NewDownloadInput, NewDownloadOutput,
};

#[test]
fn create_with_valid_url() {
    let mut dialog = NewDownload::init();
    let effects = dialog.update_with_view(NewDownloadInput::Create, "https://example.com/a.iso");
    assert_eq!(
        effects,
        NewDownloadEffects {
            output: Some(NewDownloadOutput::Create(parse_download_url("https://example.com/a.iso").unwrap())),
            input: Some(NewDownloadInput::Close),
            entry: EntryChange::Keep,
            close: false,
        }
    );
}

#[test]
fn create_with_invalid_url() {
    let mut dialog = NewDownload::init();
    let effects = dialog.update_with_view(NewDownloadInput::Create, "example");
    assert_eq!(effects.output, None);
    assert_eq!(effects.input, Some(NewDownloadInput::InvalidUrl));
    let effects = dialog.update_with_view(NewDownloadInput::InvalidUrl, "example");
    assert_eq!(dialog.error_text, "The URL is invalid!");
    assert_eq!(effects.entry, EntryChange::MarkInvalid);
    let effects = dialog.update_with_view(NewDownloadInput::Close, "example");
    assert_eq!(dialog.error_text, "");
    assert_eq!(effects.entry, EntryChange::Clear);
    assert!(effects.close);
}

#[test]
fn queue_start_and_cancel() {
    let url = |text: &str| parse_download_url(text).unwrap();
    let mut app = App::init();
    assert_eq!(app.update(AppInput::StartNewDownload(url("https://example.com/a"))), AppAction::AddDownload(0));
    assert_eq!(app.update(AppInput::StartNewDownload(url("https://example.com/b"))), AppAction::AddDownload(1));
    assert_eq!(app.downloads, vec![url("https://example.com/a"), url("https://example.com/b")]);
    assert_eq!(app.update(AppInput::CancelDownload(1)), AppAction::RemoveDownload(1));
    assert_eq!(app.downloads, vec![url("https://example.com/a")]);
    assert_eq!(app.update(AppInput::CancelDownload(5)), AppAction::RemoveDownload(5));
    assert_eq!(app.downloads, vec![url("https://example.com/a")]);
    assert_eq!(app.update(AppInput::CancelDownload(0)), AppAction::RemoveDownload(0));
    assert!(app.downloads.is_empty());
}

#[test]
fn dialogs_are_presented() {
    let mut app = App::init();
    assert_eq!(app.update(AppInput::CreateNewDownload), AppAction::PresentNewDownload);
    assert_eq!(app.update(AppInput::OpenAbout), AppAction::PresentAbout);
    assert_eq!(app.update(AppInput::CleanCache), AppAction::PresentCleanCache);
    assert!(app.downloads.is_empty());
}

#[test]
fn clean_cache_texts() {
    assert_eq!(clean_cache_body(Some("1.50")), "1.50MiB of cached downloaded files will be removed.");
    assert_eq!(clean_cache_body(None), "N/A MiB of cached downloaded files will be removed.");
}
