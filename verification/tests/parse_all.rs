use rasn::parse_all::parse_all;
use rasn::parse_all::ParseHandler;
use rasn::parse_all::WalkEvent;
use rasn::parse_all::Walker;
use rasn::types::ASNError;
use rasn::types::ASNExplicitTag;
use rasn::types::ASNInteger;
use rasn::types::ASNSet;
use rasn::types::ASNType;
use rasn::types::ExplicitTag;
use rasn::types::Identifier;
use rasn::types::TagClass;
use rasn::types::PC;
use rasn::types::Integer;
use rasn::types::Sequence;

const RSA_CERTIFICATE: [u8; 493] = [
    0x30, 0x82, 0x01, 0xE9, 0x30, 0x82, 0x01, 0x93, 0x02, 0x14, 0x14, 0x36, 0x29, 0xAC, 0xAF, 0xE4,
    0x4C, 0xCA, 0x31, 0x48, 0x12, 0x5C, 0x56, 0xD0, 0x19, 0x9C, 0x64, 0x6E, 0x56, 0x93, 0x30, 0x0D,
    0x06, 0x09, 0x2A, 0x86, 0x48, 0x86, 0xF7, 0x0D, 0x01, 0x01, 0x0B, 0x05, 0x00, 0x30, 0x76, 0x31,
    0x0B, 0x30, 0x09, 0x06, 0x03, 0x55, 0x04, 0x06, 0x13, 0x02, 0x4A, 0x50, 0x31, 0x0E, 0x30, 0x0C,
    0x06, 0x03, 0x55, 0x04, 0x08, 0x0C, 0x05, 0x54, 0x6F, 0x6B, 0x79, 0x6F, 0x31, 0x10, 0x30, 0x0E,
    0x06, 0x03, 0x55, 0x04, 0x07, 0x0C, 0x07, 0x43, 0x68, 0x75, 0x6F, 0x2D, 0x6B, 0x75, 0x31, 0x11,
    0x30, 0x0F, 0x06, 0x03, 0x55, 0x04, 0x0A, 0x0C, 0x08, 0x46, 0x72, 0x61, 0x6E, 0x6B, 0x34, 0x44,
    0x44, 0x31, 0x18, 0x30, 0x16, 0x06, 0x03, 0x55, 0x04, 0x0B, 0x0C, 0x0F, 0x57, 0x65, 0x62, 0x43,
    0x65, 0x72, 0x74, 0x20, 0x53, 0x75, 0x70, 0x70, 0x6F, 0x72, 0x74, 0x31, 0x18, 0x30, 0x16, 0x06,
    0x03, 0x55, 0x04, 0x03, 0x0C, 0x0F, 0x46, 0x72, 0x61, 0x6E, 0x6B, 0x34, 0x44, 0x44, 0x20, 0x57,
    0x65, 0x62, 0x20, 0x43, 0x41, 0x30, 0x1E, 0x17, 0x0D, 0x32, 0x36, 0x31, 0x30, 0x32, 0x38, 0x32,
    0x30, 0x30, 0x36, 0x33, 0x36, 0x5A, 0x17, 0x0D, 0x33, 0x36, 0x31, 0x30, 0x32, 0x35, 0x32, 0x30,
    0x30, 0x36, 0x33, 0x36, 0x5A, 0x30, 0x76, 0x31, 0x0B, 0x30, 0x09, 0x06, 0x03, 0x55, 0x04, 0x06,
    0x13, 0x02, 0x4A, 0x50, 0x31, 0x0E, 0x30, 0x0C, 0x06, 0x03, 0x55, 0x04, 0x08, 0x0C, 0x05, 0x54,
    0x6F, 0x6B, 0x79, 0x6F, 0x31, 0x10, 0x30, 0x0E, 0x06, 0x03, 0x55, 0x04, 0x07, 0x0C, 0x07, 0x43,
    0x68, 0x75, 0x6F, 0x2D, 0x6B, 0x75, 0x31, 0x11, 0x30, 0x0F, 0x06, 0x03, 0x55, 0x04, 0x0A, 0x0C,
    0x08, 0x46, 0x72, 0x61, 0x6E, 0x6B, 0x34, 0x44, 0x44, 0x31, 0x18, 0x30, 0x16, 0x06, 0x03, 0x55,
    0x04, 0x0B, 0x0C, 0x0F, 0x57, 0x65, 0x62, 0x43, 0x65, 0x72, 0x74, 0x20, 0x53, 0x75, 0x70, 0x70,
    0x6F, 0x72, 0x74, 0x31, 0x18, 0x30, 0x16, 0x06, 0x03, 0x55, 0x04, 0x03, 0x0C, 0x0F, 0x46, 0x72,
    0x61, 0x6E, 0x6B, 0x34, 0x44, 0x44, 0x20, 0x57, 0x65, 0x62, 0x20, 0x43, 0x41, 0x30, 0x5C, 0x30,
    0x0D, 0x06, 0x09, 0x2A, 0x86, 0x48, 0x86, 0xF7, 0x0D, 0x01, 0x01, 0x01, 0x05, 0x00, 0x03, 0x4B,
    0x00, 0x30, 0x48, 0x02, 0x41, 0x00, 0x9C, 0xC9, 0xFD, 0x8F, 0xBC, 0xA4, 0x4E, 0x3A, 0xA1, 0x46,
    0x6D, 0x09, 0xC5, 0x1E, 0x40, 0x3D, 0x23, 0x25, 0x01, 0x33, 0xAF, 0x11, 0x1B, 0x8A, 0x5F, 0xAF,
    0x6C, 0x55, 0x18, 0x69, 0x8C, 0xCA, 0x41, 0x60, 0x53, 0xA8, 0x29, 0xEF, 0x60, 0x17, 0x9E, 0xF3,
    0xFE, 0x0D, 0x06, 0xE1, 0x70, 0xF8, 0x1B, 0x6C, 0x50, 0x95, 0x59, 0xB2, 0x3E, 0x86, 0x1B, 0x9D,
    0x51, 0x78, 0x2C, 0x73, 0xD8, 0x71, 0x02, 0x03, 0x01, 0x00, 0x01, 0x30, 0x0D, 0x06, 0x09, 0x2A,
    0x86, 0x48, 0x86, 0xF7, 0x0D, 0x01, 0x01, 0x0B, 0x05, 0x00, 0x03, 0x41, 0x00, 0x82, 0xAF, 0xB3,
    0x2C, 0x8D, 0xD6, 0xE7, 0x64, 0x4A, 0xFC, 0x35, 0xB5, 0x3E, 0x3F, 0x4B, 0x6A, 0x88, 0x06, 0x70,
    0x66, 0x97, 0x5D, 0xFB, 0x11, 0xB5, 0xED, 0xE8, 0x26, 0x2D, 0x50, 0x40, 0x54, 0xAC, 0x7A, 0x58,
    0xA2, 0x49, 0x29, 0x39, 0xC5, 0x4B, 0x64, 0x8B, 0xE8, 0xEA, 0xB8, 0x05, 0x10, 0x11, 0x00, 0xD4,
    0x98, 0x78, 0x53, 0x07, 0x1E, 0x6C, 0xE3, 0xE6, 0x85, 0x3E, 0x92, 0x83, 0xF2,
];

const ED25519_CERTIFICATE: [u8; 414] = [
    0x30, 0x82, 0x01, 0x9A, 0x30, 0x82, 0x01, 0x4C, 0xA0, 0x03, 0x02, 0x01, 0x02, 0x02, 0x14, 0x40,
    0x6C, 0x37, 0x5D, 0x91, 0x87, 0x3D, 0x33, 0x28, 0x69, 0x1E, 0x22, 0x74, 0xC1, 0xFB, 0x3C, 0x63,
    0x5C, 0x10, 0x67, 0x30, 0x05, 0x06, 0x03, 0x2B, 0x65, 0x70, 0x30, 0x3A, 0x31, 0x0B, 0x30, 0x09,
    0x06, 0x03, 0x55, 0x04, 0x06, 0x13, 0x02, 0x55, 0x53, 0x31, 0x14, 0x30, 0x12, 0x06, 0x03, 0x55,
    0x04, 0x0A, 0x0C, 0x0B, 0x45, 0x78, 0x61, 0x6D, 0x70, 0x6C, 0x65, 0x20, 0x4F, 0x72, 0x67, 0x31,
    0x15, 0x30, 0x13, 0x06, 0x03, 0x55, 0x04, 0x03, 0x0C, 0x0C, 0x65, 0x78, 0x61, 0x6D, 0x70, 0x6C,
    0x65, 0x2E, 0x74, 0x65, 0x73, 0x74, 0x30, 0x1E, 0x17, 0x0D, 0x32, 0x36, 0x31, 0x30, 0x32, 0x38,
    0x32, 0x30, 0x30, 0x36, 0x34, 0x34, 0x5A, 0x17, 0x0D, 0x33, 0x36, 0x31, 0x30, 0x32, 0x35, 0x32,
    0x30, 0x30, 0x36, 0x34, 0x34, 0x5A, 0x30, 0x3A, 0x31, 0x0B, 0x30, 0x09, 0x06, 0x03, 0x55, 0x04,
    0x06, 0x13, 0x02, 0x55, 0x53, 0x31, 0x14, 0x30, 0x12, 0x06, 0x03, 0x55, 0x04, 0x0A, 0x0C, 0x0B,
    0x45, 0x78, 0x61, 0x6D, 0x70, 0x6C, 0x65, 0x20, 0x4F, 0x72, 0x67, 0x31, 0x15, 0x30, 0x13, 0x06,
    0x03, 0x55, 0x04, 0x03, 0x0C, 0x0C, 0x65, 0x78, 0x61, 0x6D, 0x70, 0x6C, 0x65, 0x2E, 0x74, 0x65,
    0x73, 0x74, 0x30, 0x2A, 0x30, 0x05, 0x06, 0x03, 0x2B, 0x65, 0x70, 0x03, 0x21, 0x00, 0x4D, 0x63,
    0x7C, 0x1E, 0xD7, 0x70, 0x2B, 0x39, 0xC6, 0x5E, 0x6F, 0x2D, 0xC1, 0x93, 0x29, 0x39, 0xB2, 0x04,
    0x1A, 0x03, 0x28, 0x20, 0x89, 0x7B, 0xC8, 0x04, 0x22, 0x87, 0x72, 0xBB, 0xF7, 0x23, 0xA3, 0x64,
    0x30, 0x62, 0x30, 0x1D, 0x06, 0x03, 0x55, 0x1D, 0x0E, 0x04, 0x16, 0x04, 0x14, 0x26, 0x83, 0x2D,
    0xFA, 0xE7, 0x49, 0x3C, 0x0A, 0x73, 0x5C, 0x29, 0x7B, 0x5B, 0x44, 0x7E, 0x0D, 0x2C, 0x9E, 0xB0,
    0x64, 0x30, 0x12, 0x06, 0x03, 0x55, 0x1D, 0x13, 0x01, 0x01, 0xFF, 0x04, 0x08, 0x30, 0x06, 0x01,
    0x01, 0xFF, 0x02, 0x01, 0x03, 0x30, 0x0E, 0x06, 0x03, 0x55, 0x1D, 0x0F, 0x01, 0x01, 0xFF, 0x04,
    0x04, 0x03, 0x02, 0x01, 0x86, 0x30, 0x1D, 0x06, 0x03, 0x55, 0x1D, 0x25, 0x04, 0x16, 0x30, 0x14,
    0x06, 0x08, 0x2B, 0x06, 0x01, 0x05, 0x05, 0x07, 0x03, 0x01, 0x06, 0x08, 0x2B, 0x06, 0x01, 0x05,
    0x05, 0x07, 0x03, 0x02, 0x30, 0x05, 0x06, 0x03, 0x2B, 0x65, 0x70, 0x03, 0x41, 0x00, 0x77, 0x9E,
    0x1C, 0xF1, 0xF0, 0x4B, 0x63, 0x57, 0x54, 0x83, 0xA7, 0x87, 0x91, 0x68, 0xC6, 0x87, 0xEA, 0xAE,
    0xBD, 0x60, 0xA6, 0xE5, 0x2B, 0x03, 0x88, 0x0F, 0x44, 0xD0, 0x1E, 0xCA, 0x46, 0xC7, 0x5E, 0x43,
    0x39, 0xC7, 0x14, 0x3A, 0x5A, 0x8E, 0x55, 0xA0, 0xD7, 0x2C, 0xE8, 0xA7, 0xBE, 0x1C, 0x0E, 0x2E,
    0x96, 0x07, 0x92, 0x70, 0x11, 0xDE, 0xEA, 0x0D, 0x2B, 0xAA, 0xFC, 0x2A, 0x71, 0x06,
];

const GOOGLE_ROOT_CERTIFICATE: [u8; 525] = [
    0x30, 0x82, 0x02, 0x09, 0x30, 0x82, 0x01, 0x8E, 0xA0, 0x03, 0x02, 0x01, 0x02, 0x02, 0x0D, 0x02,
    0x03, 0xE5, 0xC0, 0x68, 0xEF, 0x63, 0x1A, 0x9C, 0x72, 0x90, 0x50, 0x52, 0x30, 0x0A, 0x06, 0x08,
    0x2A, 0x86, 0x48, 0xCE, 0x3D, 0x04, 0x03, 0x03, 0x30, 0x47, 0x31, 0x0B, 0x30, 0x09, 0x06, 0x03,
    0x55, 0x04, 0x06, 0x13, 0x02, 0x55, 0x53, 0x31, 0x22, 0x30, 0x20, 0x06, 0x03, 0x55, 0x04, 0x0A,
    0x13, 0x19, 0x47, 0x6F, 0x6F, 0x67, 0x6C, 0x65, 0x20, 0x54, 0x72, 0x75, 0x73, 0x74, 0x20, 0x53,
    0x65, 0x72, 0x76, 0x69, 0x63, 0x65, 0x73, 0x20, 0x4C, 0x4C, 0x43, 0x31, 0x14, 0x30, 0x12, 0x06,
    0x03, 0x55, 0x04, 0x03, 0x13, 0x0B, 0x47, 0x54, 0x53, 0x20, 0x52, 0x6F, 0x6F, 0x74, 0x20, 0x52,
    0x34, 0x30, 0x1E, 0x17, 0x0D, 0x31, 0x36, 0x30, 0x36, 0x32, 0x32, 0x30, 0x30, 0x30, 0x30, 0x30,
    0x30, 0x5A, 0x17, 0x0D, 0x33, 0x36, 0x30, 0x36, 0x32, 0x32, 0x30, 0x30, 0x30, 0x30, 0x30, 0x30,
    0x5A, 0x30, 0x47, 0x31, 0x0B, 0x30, 0x09, 0x06, 0x03, 0x55, 0x04, 0x06, 0x13, 0x02, 0x55, 0x53,
    0x31, 0x22, 0x30, 0x20, 0x06, 0x03, 0x55, 0x04, 0x0A, 0x13, 0x19, 0x47, 0x6F, 0x6F, 0x67, 0x6C,
    0x65, 0x20, 0x54, 0x72, 0x75, 0x73, 0x74, 0x20, 0x53, 0x65, 0x72, 0x76, 0x69, 0x63, 0x65, 0x73,
    0x20, 0x4C, 0x4C, 0x43, 0x31, 0x14, 0x30, 0x12, 0x06, 0x03, 0x55, 0x04, 0x03, 0x13, 0x0B, 0x47,
    0x54, 0x53, 0x20, 0x52, 0x6F, 0x6F, 0x74, 0x20, 0x52, 0x34, 0x30, 0x76, 0x30, 0x10, 0x06, 0x07,
    0x2A, 0x86, 0x48, 0xCE, 0x3D, 0x02, 0x01, 0x06, 0x05, 0x2B, 0x81, 0x04, 0x00, 0x22, 0x03, 0x62,
    0x00, 0x04, 0xF3, 0x74, 0x73, 0xA7, 0x68, 0x8B, 0x60, 0xAE, 0x43, 0xB8, 0x35, 0xC5, 0x81, 0x30,
    0x7B, 0x4B, 0x49, 0x9D, 0xFB, 0xC1, 0x61, 0xCE, 0xE6, 0xDE, 0x46, 0xBD, 0x6B, 0xD5, 0x61, 0x18,
    0x35, 0xAE, 0x40, 0xDD, 0x73, 0xF7, 0x89, 0x91, 0x30, 0x5A, 0xEB, 0x3C, 0xEE, 0x85, 0x7C, 0xA2,
    0x40, 0x76, 0x3B, 0xA9, 0xC6, 0xB8, 0x47, 0xD8, 0x2A, 0xE7, 0x92, 0x91, 0x6A, 0x73, 0xE9, 0xB1,
    0x72, 0x39, 0x9F, 0x29, 0x9F, 0xA2, 0x98, 0xD3, 0x5F, 0x5E, 0x58, 0x86, 0x65, 0x0F, 0xA1, 0x84,
    0x65, 0x06, 0xD1, 0xDC, 0x8B, 0xC9, 0xC7, 0x73, 0xC8, 0x8C, 0x6A, 0x2F, 0xE5, 0xC4, 0xAB, 0xD1,
    0x1D, 0x8A, 0xA3, 0x42, 0x30, 0x40, 0x30, 0x0E, 0x06, 0x03, 0x55, 0x1D, 0x0F, 0x01, 0x01, 0xFF,
    0x04, 0x04, 0x03, 0x02, 0x01, 0x86, 0x30, 0x0F, 0x06, 0x03, 0x55, 0x1D, 0x13, 0x01, 0x01, 0xFF,
    0x04, 0x05, 0x30, 0x03, 0x01, 0x01, 0xFF, 0x30, 0x1D, 0x06, 0x03, 0x55, 0x1D, 0x0E, 0x04, 0x16,
    0x04, 0x14, 0x80, 0x4C, 0xD6, 0xEB, 0x74, 0xFF, 0x49, 0x36, 0xA3, 0xD5, 0xD8, 0xFC, 0xB5, 0x3E,
    0xC5, 0x6A, 0xF0, 0x94, 0x1D, 0x8C, 0x30, 0x0A, 0x06, 0x08, 0x2A, 0x86, 0x48, 0xCE, 0x3D, 0x04,
    0x03, 0x03, 0x03, 0x69, 0x00, 0x30, 0x66, 0x02, 0x31, 0x00, 0xE8, 0x40, 0xFF, 0x83, 0xDE, 0x03,
    0xF4, 0x9F, 0xAE, 0x1D, 0x7A, 0xA7, 0x2E, 0xB9, 0xAF, 0x4F, 0xF6, 0x83, 0x1D, 0x0E, 0x2D, 0x85,
    0x01, 0x1D, 0xD1, 0xD9, 0x6A, 0xEC, 0x0F, 0xC2, 0xAF, 0xC7, 0x5E, 0x56, 0x5E, 0x5C, 0xD5, 0x1C,
    0x58, 0x22, 0x28, 0x0B, 0xF7, 0x30, 0xB6, 0x2F, 0xB1, 0x7C, 0x02, 0x31, 0x00, 0xF0, 0x61, 0x3C,
    0xA7, 0xF4, 0xA0, 0x82, 0xE3, 0x21, 0xD5, 0x84, 0x1D, 0x73, 0x86, 0x9C, 0x2D, 0xAF, 0xCA, 0x34,
    0x9B, 0xF1, 0x9F, 0xB9, 0x23, 0x36, 0xE2, 0xBC, 0x60, 0x03, 0x9D, 0x80, 0xB3, 0x9A, 0x56, 0xC8,
    0xE1, 0xE2, 0xBB, 0x14, 0x79, 0xCA, 0xCD, 0x21, 0xD4, 0x94, 0xB5, 0x49, 0x43,
];

struct MockHandler {}

impl ParseHandler for MockHandler {
    fn begin_constructed(&mut self) {}

    fn end_constructed(&mut self) {}

    fn on_type(&mut self, _: &ASNType) {}

    fn on_error(&mut self, _: &ASNError) {}
}

struct Recorder {
    log: Vec<String>,
}

impl ParseHandler for Recorder {
    fn begin_constructed(&mut self) {
        self.log.push("begin".to_string());
    }

    fn end_constructed(&mut self) {
        self.log.push("end".to_string());
    }

    fn on_type(&mut self, asn: &ASNType) {
        self.log.push(format!("{:?}", asn.get_id()));
    }

    fn on_error(&mut self, err: &ASNError) {
        self.log.push(format!("error {:?}", err));
    }
}

#[test]
fn parse_all_parses_rsa_x509_without_error() {
    // just checking that an error doesn't occur
    parse_all(&RSA_CERTIFICATE, &mut MockHandler {}).unwrap();
}

#[test]
fn parse_all_parses_ed22519_x509_without_error() {
    // just checking that an error doesn't occur
    parse_all(&ED25519_CERTIFICATE, &mut MockHandler {}).unwrap();
}

#[test]
fn walk_over_a_root_certificate() {
    parse_all(&GOOGLE_ROOT_CERTIFICATE, &mut MockHandler {}).unwrap();
}

#[test]
fn iterates_over_x509() {
    let mut recorder = Recorder { log: Vec::new() };
    parse_all(&RSA_CERTIFICATE, &mut recorder).unwrap();
    assert_eq!(recorder.log[0], "Sequence");
    assert_eq!(recorder.log[1], "begin");
    assert_eq!(recorder.log[2], "Sequence");
    assert_eq!(recorder.log[3], "begin");
    assert_eq!(recorder.log[4], "Integer");
    assert_eq!(recorder.log.last().unwrap(), "end");
    let begins = recorder.log.iter().filter(|e| *e == "begin").count();
    let ends = recorder.log.iter().filter(|e| *e == "end").count();
    assert_eq!(begins, ends);
    assert_eq!(begins, 33);
}

#[test]
fn walk_reports_values_and_goes_down_into_them() {
    let bytes = [
        0x30, 0x08, 0x02, 0x01, 0x05, 0xA1, 0x03, 0x31, 0x01, 0x07, 0x05, 0x00,
    ];
    let mut recorder = Recorder { log: Vec::new() };
    assert_eq!(
        parse_all(&bytes, &mut recorder),
        Err(ASNError::UnsupportedId(Identifier::new(TagClass::Universal, PC::Primitive, 7)))
    );
    assert_eq!(
        recorder.log,
        vec![
            "Sequence",
            "begin",
            "Integer",
            "ExplicitTag",
            "begin",
            "ASNSet",
            "begin",
            "error UnsupportedId(Identifier { class: Universal, pc: Primitive, tag: 7 })",
        ]
    );
}

#[test]
fn walk_ends_with_the_first_error() {
    let bytes = [0x30, 0x05, 0x02, 0x01, 0x05, 0x05, 0x01, 0x05, 0x00];
    let mut recorder = Recorder { log: Vec::new() };
    assert_eq!(parse_all(&bytes, &mut recorder), Err(ASNError::EndOfStream));
    assert_eq!(
        recorder.log,
        vec!["Sequence", "begin", "Integer", "error EndOfStream"]
    );
}

#[test]
fn walk_over_nothing_reports_nothing() {
    let mut recorder = Recorder { log: Vec::new() };
    assert_eq!(parse_all(&[], &mut recorder), Ok(()));
    assert!(recorder.log.is_empty());
}

#[test]
fn walk_closes_what_it_opened() {
    let bytes = [0x30, 0x05, 0x31, 0x03, 0x02, 0x01, 0x05, 0x05, 0x00];
    let mut recorder = Recorder { log: Vec::new() };
    assert_eq!(parse_all(&bytes, &mut recorder), Ok(()));
    assert_eq!(
        recorder.log,
        vec!["Sequence", "begin", "ASNSet", "begin", "Integer", "end", "end", "Null"]
    );
}

#[test]
fn walker_hands_out_events_one_by_one() {
    let bytes = [0xA2, 0x03, 0x02, 0x01, 0x05, 0x30, 0x02, 0x05];
    let mut walker = Walker::new(&bytes);
    assert_eq!(
        walker.step(),
        Some(WalkEvent::Type(ExplicitTag::asn(ASNExplicitTag::new(2, &[0x02, 0x01, 0x05]))))
    );
    assert_eq!(walker.step(), Some(WalkEvent::BeginConstructed));
    assert_eq!(walker.step(), Some(WalkEvent::Type(Integer::asn(ASNInteger::new(&[0x05])))));
    assert_eq!(walker.step(), Some(WalkEvent::EndConstructed));
    assert_eq!(walker.step(), Some(WalkEvent::Error(ASNError::EndOfStream)));
    assert_eq!(walker.step(), None);
    assert_eq!(walker.step(), None);
    let mut set = Walker::new(&[0x31, 0x02, 0x05, 0x00]);
    assert_eq!(set.step(), Some(WalkEvent::Type(ASNSet::asn(&[0x05, 0x00]))));
    assert_eq!(set.step(), Some(WalkEvent::BeginConstructed));
    assert_eq!(set.step(), Some(WalkEvent::Type(ASNType::Null)));
    assert_eq!(set.step(), Some(WalkEvent::EndConstructed));
    assert_eq!(set.step(), None);
    let mut seq = Walker::new(&[0x30, 0x02, 0x05, 0x00]);
    assert_eq!(seq.step(), Some(WalkEvent::Type(Sequence::asn(&[0x05, 0x00]))));
}

#[test]
fn walk_goes_as_deep_as_the_values_are_nested() {
    let depth = 5000;
    let mut bytes: Vec<u8> = vec![0x05, 0x00];
    for _ in 0..depth {
        let mut outer: Vec<u8> = vec![0x30];
        let n = bytes.len();
        if n < 128 {
            outer.push(n as u8);
        } else if n < 256 {
            outer.extend([0x81, n as u8]);
        } else if n < 65536 {
            outer.extend([0x82, (n / 256) as u8, (n % 256) as u8]);
        } else {
            outer.extend([0x83, (n / 65536) as u8, (n / 256 % 256) as u8, (n % 256) as u8]);
        }
        outer.extend(&bytes);
        bytes = outer;
    }
    let mut recorder = Recorder { log: Vec::new() };
    assert_eq!(parse_all(&bytes, &mut recorder), Ok(()));
    assert_eq!(recorder.log.len(), 3 * depth + 1);
    assert_eq!(recorder.log[3 * depth - 1 - depth], "begin");
    assert_eq!(recorder.log[2 * depth], "Null");
}
