use lossydec::align::ByteAlignedDecoder;
use lossydec::ascii::LossyASCIIDecoder;
use lossydec::unicode::LossyUTF8Decoder;

#[test]
fn test_decoder_ascii() {
    let bytes = b"text, controls \n \r\n, space \t, unicode \xC3\xA4h \xC3\xA0 la \xF0\x9F\x92\xA9, null \x00, invalid \xC0\xF8\xEE";
    let mut decoder = ByteAlignedDecoder::from(LossyASCIIDecoder::from(&bytes[..]));
    let characters: Vec<_> = decoder.collect_chars();
    let decoded = String::from_iter(&characters);

    assert_eq!(bytes.len(), characters.len());
    assert_eq!(&decoded, "text, controls \n \r\n, space \t, unicode ��h �� la ����, null \0, invalid ���");
}

#[test]
fn test_decoder_utf8() {
    let bytes = b"text, controls \n \r\n, space \t, unicode \xC3\xA4h \xC3\xA0 la \xF0\x9F\x92\xA9, null \x00, invalid \xC0\xF8\xEE";
    let mut decoder = ByteAlignedDecoder::from(LossyUTF8Decoder::from(&bytes[..]));
    let characters: Vec<_> = decoder.collect_chars();
    let decoded = String::from_iter(&characters);

    assert_eq!(bytes.len(), characters.len());
    assert_eq!(&decoded, "text, controls \n \r\n, space \t, unicode ä•h à• la 💩•••, null \0, invalid ���");
}
