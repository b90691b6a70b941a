use kptui::export::{detect_format, format_for_extension, ExportFormat, FormatError};

#[test]
fn format_follows_the_extension() {
    assert_eq!(detect_format("/tmp/out.kdbx"), Ok(ExportFormat::Kdbx));
    assert_eq!(detect_format("backup.csv"), Ok(ExportFormat::Csv));
    assert_eq!(detect_format("dir.v2/backup.json"), Ok(ExportFormat::Json));
}

#[test]
fn extension_case_does_not_matter() {
    assert_eq!(detect_format("OUT.KDBX"), Ok(ExportFormat::Kdbx));
    assert_eq!(detect_format("out.Csv"), Ok(ExportFormat::Csv));
    assert_eq!(format_for_extension(Some("JsOn")), Ok(ExportFormat::Json));
}

#[test]
fn unknown_or_missing_extensions_are_refused() {
    assert_eq!(detect_format("notes.txt"), Err(FormatError::UnrecognizedExtension));
    assert_eq!(detect_format("noextension"), Err(FormatError::UnrecognizedExtension));
    assert_eq!(detect_format(".csv"), Err(FormatError::UnrecognizedExtension));
    assert_eq!(detect_format("archive.csv.gz"), Err(FormatError::UnrecognizedExtension));
    assert_eq!(format_for_extension(None), Err(FormatError::UnrecognizedExtension));
}

#[test]
fn refusal_message_names_the_formats() {
    assert_eq!(
        FormatError::UnrecognizedExtension.message(),
        "unrecognized file extension, expected .kdbx, .csv, or .json"
    );
}
