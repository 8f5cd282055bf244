use codepage_strings::{Backend, Coding, ConvertError, Endian};

fn backend_of(cp: u16) -> Result<Backend, ConvertError> {
    Coding::new(cp).map(|c| c.backend())
}

#[test]
fn resolves_utf8_and_utf16_first() {
    assert_eq!(backend_of(65001), Ok(Backend::Identity));
    assert_eq!(backend_of(1200), Ok(Backend::Utf16(Endian::LE)));
    assert_eq!(backend_of(1201), Ok(Backend::Utf16(Endian::BE)));
}

#[test]
fn resolves_general_tables() {
    assert_eq!(backend_of(1257), Ok(Backend::LargeTable(1257)));
    assert_eq!(backend_of(1252), Ok(Backend::LargeTable(1252)));
    assert_eq!(backend_of(28591), Ok(Backend::LargeTable(28591)));
    // 866 and 874 are known to both families; the general tables come first.
    assert_eq!(backend_of(866), Ok(Backend::LargeTable(866)));
    assert_eq!(backend_of(874), Ok(Backend::LargeTable(874)));
}

#[test]
fn resolves_oem_tables() {
    assert_eq!(backend_of(437), Ok(Backend::OemTable(437)));
    assert_eq!(backend_of(869), Ok(Backend::OemTable(869)));
    assert_eq!(backend_of(720), Ok(Backend::OemTable(720)));
}

#[test]
fn refuses_utf32_and_utf7() {
    for cp in [12000u16, 12001, 65000] {
        assert_eq!(backend_of(cp), Err(ConvertError::UnsupportedCodepage));
    }
}

#[test]
fn unknown_pages() {
    assert_eq!(backend_of(0), Err(ConvertError::UnknownCodepage));
    assert_eq!(backend_of(1), Err(ConvertError::UnknownCodepage));
    assert_eq!(backend_of(65535), Err(ConvertError::UnknownCodepage));
}

#[test]
fn error_messages() {
    assert_eq!(ConvertError::StringEncoding.message(), "string codepage encoding error");
    assert_eq!(ConvertError::StringDecoding.message(), "string decoding error");
    assert_eq!(ConvertError::UnknownCodepage.message(), "invalid / unknown Windows code page");
    assert_eq!(
        ConvertError::UnsupportedCodepage.message(),
        "cannot transcode this Windows code page"
    );
}
