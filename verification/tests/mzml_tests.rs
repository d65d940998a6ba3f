//! Document parsing: retained spectra, scan range, payload decoding and
//! the fatal error cases.

use mzsniffer::ieee::INTENSITY_SCALE;
use mzsniffer::mass::MASS_SCALE;
use mzsniffer::mzml::MzMLError;
use mzsniffer::mzml::MzMLReader;
use mzsniffer::mzml::Representation;

fn enc_f64(vals: &[f64]) -> String {
    let mut bytes: Vec<u8> = Vec::new();
    for v in vals {
        bytes.extend_from_slice(&v.to_le_bytes());
    }
    base64::encode(&bytes)
}

fn enc_f32(vals: &[f32]) -> String {
    let mut bytes: Vec<u8> = Vec::new();
    for v in vals {
        bytes.extend_from_slice(&v.to_le_bytes());
    }
    base64::encode(&bytes)
}

fn zlib(bytes: &[u8]) -> Vec<u8> {
    let mut out: Vec<u8> = Vec::new();
    let mut enc = async_compression::futures::bufread::ZlibEncoder::new(bytes);
    futures::executor::block_on(futures::io::AsyncReadExt::read_to_end(&mut enc, &mut out))
        .unwrap();
    out
}

fn ms1_doc(mz_b64: &str, int_b64: &str) -> String {
    format!(
        "<mzML><spectrum id=\"s1\">\
         <cvParam accession=\"MS:1000511\" value=\"1\"/>\
         <cvParam accession=\"MS:1000127\"/>\
         <cvParam accession=\"MS:1000285\" value=\"100.0\"/>\
         <scan>\
         <cvParam accession=\"MS:1000016\" value=\"1.5\"/>\
         <cvParam accession=\"MS:1000501\" value=\"400.0\"/>\
         <cvParam accession=\"MS:1000500\" value=\"1500.0\"/>\
         </scan>\
         <binaryDataArray>\
         <cvParam accession=\"MS:1000523\"/>\
         <cvParam accession=\"MS:1000576\"/>\
         <cvParam accession=\"MS:1000514\"/>\
         <binary>{}</binary>\
         </binaryDataArray>\
         <binaryDataArray>\
         <cvParam accession=\"MS:1000523\"/>\
         <cvParam accession=\"MS:1000515\"/>\
         <binary>{}</binary>\
         </binaryDataArray>\
         </spectrum></mzML>",
        mz_b64, int_b64
    )
}

#[test]
fn ms1_spectrum_is_parsed_with_its_arrays() {
    let doc = ms1_doc(&enc_f64(&[100.25, 200.5, 300.75]), &enc_f64(&[10.0, 20.0, 30.0]));
    let out = MzMLReader::new().parse(doc.as_bytes()).unwrap();
    assert_eq!(out.spectra.len(), 1);
    let s = &out.spectra[0];
    assert_eq!(s.ms_level, 1);
    assert_eq!(s.id, "s1");
    assert_eq!(s.representation, Representation::Centroid);
    assert_eq!(s.scan_start_time, 15_000_000_000_000);
    assert_eq!(s.total_ion_current, 100 * INTENSITY_SCALE);
    assert_eq!(s.mz, vec![1_002_500_000_000_000, 2_005_000_000_000_000, 3_007_500_000_000_000]);
    assert_eq!(s.intensity, vec![1000, 2000, 3000]);
    assert_eq!(out.scan_range, (0, 1500 * MASS_SCALE));
}

#[test]
fn non_ms1_spectrum_is_absent_even_with_binary_arrays() {
    let doc = format!(
        "<mzML><spectrum id=\"s2\">\
         <cvParam accession=\"MS:1000511\" value=\"2\"/>\
         <binaryDataArray>\
         <cvParam accession=\"MS:1000523\"/>\
         <cvParam accession=\"MS:1000514\"/>\
         <binary>{}</binary>\
         </binaryDataArray>\
         </spectrum></mzML>",
        enc_f64(&[1.0, 2.0])
    );
    let out = MzMLReader::new().parse(doc.as_bytes()).unwrap();
    assert_eq!(out.spectra.len(), 0);
}

#[test]
fn zero_ion_current_spectrum_is_absent() {
    let doc = "<mzML><spectrum id=\"s3\">\
               <cvParam accession=\"MS:1000511\" value=\"1\"/>\
               <cvParam accession=\"MS:1000285\" value=\"0.0\"/>\
               </spectrum></mzML>";
    let out = MzMLReader::new().parse(doc.as_bytes()).unwrap();
    assert_eq!(out.spectra.len(), 0);
}

#[test]
fn scan_range_widens_across_the_whole_document() {
    let doc = "<mzML>\
               <spectrum id=\"a\"><cvParam accession=\"MS:1000511\" value=\"1\"/>\
               <cvParam accession=\"MS:1000285\" value=\"5.0\"/>\
               <scan><cvParam accession=\"MS:1000500\" value=\"1000.0\"/></scan>\
               </spectrum>\
               <spectrum id=\"b\"><cvParam accession=\"MS:1000511\" value=\"1\"/>\
               <cvParam accession=\"MS:1000285\" value=\"5.0\"/>\
               <scan><cvParam accession=\"MS:1000500\" value=\"1500.0\"/>\
               <cvParam accession=\"MS:1000501\" value=\"300.0\"/></scan>\
               </spectrum></mzML>";
    let out = MzMLReader::new().parse(doc.as_bytes()).unwrap();
    assert_eq!(out.spectra.len(), 2);
    // The lower bound starts at 0 and only ever decreases.
    assert_eq!(out.scan_range, (0, 1500 * MASS_SCALE));
}

#[test]
fn large_intensities_and_currents_do_not_saturate() {
    // Instrument magnitudes (currents around 1e11) stay exact at the
    // intensity scale.
    let doc = format!(
        "<mzML><spectrum id=\"big\">\
         <cvParam accession=\"MS:1000511\" value=\"1\"/>\
         <cvParam accession=\"MS:1000285\" value=\"250000000000.0\"/>\
         <binaryDataArray>\
         <cvParam accession=\"MS:1000523\"/>\
         <cvParam accession=\"MS:1000515\"/>\
         <binary>{}</binary>\
         </binaryDataArray>\
         </spectrum></mzML>",
        enc_f64(&[100000000000.0, 50000000000.5])
    );
    let out = MzMLReader::new().parse(doc.as_bytes()).unwrap();
    let s = &out.spectra[0];
    assert_eq!(s.total_ion_current, 25_000_000_000_000);
    assert_eq!(s.intensity, vec![10_000_000_000_000, 5_000_000_000_050]);
}

#[test]
fn tiny_nonzero_ion_current_is_kept() {
    // An ion current below one intensity unit rounds up, so only an
    // exactly-zero current abandons the spectrum.
    let doc = "<mzML><spectrum id=\"s\">\
               <cvParam accession=\"MS:1000511\" value=\"1\"/>\
               <cvParam accession=\"MS:1000285\" value=\"0.001\"/>\
               </spectrum></mzML>";
    let out = MzMLReader::new().parse(doc.as_bytes()).unwrap();
    assert_eq!(out.spectra.len(), 1);
    assert_eq!(out.spectra[0].total_ion_current, 1);
}

#[test]
fn spectrum_without_ion_current_is_absent() {
    // The output only holds spectra whose total ion current is nonzero; a
    // first-stage spectrum whose document never states one is dropped.
    let doc = "<mzML><spectrum id=\"s\">\
               <cvParam accession=\"MS:1000511\" value=\"1\"/>\
               </spectrum></mzML>";
    let out = MzMLReader::new().parse(doc.as_bytes()).unwrap();
    assert_eq!(out.spectra.len(), 0);
}

#[test]
fn f32_payloads_decode_at_single_precision() {
    let doc = format!(
        "<mzML><spectrum id=\"s\">\
         <cvParam accession=\"MS:1000511\" value=\"1\"/>\
         <cvParam accession=\"MS:1000285\" value=\"7.0\"/>\
         <binaryDataArray>\
         <cvParam accession=\"MS:1000521\"/>\
         <cvParam accession=\"MS:1000514\"/>\
         <binary>{}</binary>\
         </binaryDataArray>\
         </spectrum></mzML>",
        enc_f32(&[1.5, 2.5])
    );
    let out = MzMLReader::new().parse(doc.as_bytes()).unwrap();
    assert_eq!(out.spectra[0].mz, vec![15_000_000_000_000, 25_000_000_000_000]);
}

#[test]
fn zlib_compressed_payload_is_inflated() {
    let mut bytes: Vec<u8> = Vec::new();
    for v in [100.25f64, 200.5f64] {
        bytes.extend_from_slice(&v.to_le_bytes());
    }
    let doc = format!(
        "<mzML><spectrum id=\"s\">\
         <cvParam accession=\"MS:1000511\" value=\"1\"/>\
         <cvParam accession=\"MS:1000285\" value=\"7.0\"/>\
         <binaryDataArray>\
         <cvParam accession=\"MS:1000574\"/>\
         <cvParam accession=\"MS:1000523\"/>\
         <cvParam accession=\"MS:1000514\"/>\
         <binary>{}</binary>\
         </binaryDataArray>\
         </spectrum></mzML>",
        base64::encode(&zlib(&bytes))
    );
    let out = MzMLReader::new().parse(doc.as_bytes()).unwrap();
    assert_eq!(out.spectra[0].mz, vec![1_002_500_000_000_000, 2_005_000_000_000_000]);
}

#[test]
fn unknown_accession_clears_the_pending_identity() {
    // The identity is set, then an unrecognized accession clears it, so
    // the payload is treated as unidentified and skipped.
    let doc = format!(
        "<mzML><spectrum id=\"s\">\
         <cvParam accession=\"MS:1000511\" value=\"1\"/>\
         <cvParam accession=\"MS:1000285\" value=\"7.0\"/>\
         <binaryDataArray>\
         <cvParam accession=\"MS:1000523\"/>\
         <cvParam accession=\"MS:1000514\"/>\
         <cvParam accession=\"MS:9999999\"/>\
         <binary>{}</binary>\
         </binaryDataArray>\
         </spectrum></mzML>",
        enc_f64(&[1.0])
    );
    let out = MzMLReader::new().parse(doc.as_bytes()).unwrap();
    assert_eq!(out.spectra.len(), 1);
    assert_eq!(out.spectra[0].mz.len(), 0);
}

#[test]
fn compression_flag_is_sticky_across_unknown_accessions() {
    // Zlib is announced, then an unknown accession appears: the flag must
    // keep its value, so the still-compressed payload decodes fine.
    let mut bytes: Vec<u8> = Vec::new();
    bytes.extend_from_slice(&42.5f64.to_le_bytes());
    let doc = format!(
        "<mzML><spectrum id=\"s\">\
         <cvParam accession=\"MS:1000511\" value=\"1\"/>\
         <cvParam accession=\"MS:1000285\" value=\"7.0\"/>\
         <binaryDataArray>\
         <cvParam accession=\"MS:1000574\"/>\
         <cvParam accession=\"MS:1000523\"/>\
         <cvParam accession=\"MS:9999999\"/>\
         <cvParam accession=\"MS:1000514\"/>\
         <binary>{}</binary>\
         </binaryDataArray>\
         </spectrum></mzML>",
        base64::encode(&zlib(&bytes))
    );
    let out = MzMLReader::new().parse(doc.as_bytes()).unwrap();
    assert_eq!(out.spectra[0].mz, vec![425_000_000_000_000]);
}

#[test]
fn spectrum_still_open_at_end_of_stream_is_not_flushed() {
    let doc = "<mzML>\
               <spectrum id=\"done\"><cvParam accession=\"MS:1000511\" value=\"1\"/>\
               <cvParam accession=\"MS:1000285\" value=\"3.0\"/></spectrum>\
               <spectrum id=\"open\"><cvParam accession=\"MS:1000511\" value=\"1\"/>\
               <cvParam accession=\"MS:1000285\" value=\"3.0\"/>";
    let out = MzMLReader::new().parse(doc.as_bytes()).unwrap();
    assert_eq!(out.spectra.len(), 1);
    assert_eq!(out.spectra[0].id, "done");
}

#[test]
fn missing_spectrum_id_is_malformed() {
    let doc = "<mzML><spectrum></spectrum></mzML>";
    match MzMLReader::new().parse(doc.as_bytes()) {
        Err(MzMLError::Malformed) => {},
        other => panic!("expected a malformed-document error, got {:?}", other),
    }
}

#[test]
fn missing_accession_on_a_spectrum_cv_param_is_malformed() {
    let doc = "<mzML><spectrum id=\"s\"><cvParam value=\"1\"/></spectrum></mzML>";
    match MzMLReader::new().parse(doc.as_bytes()) {
        Err(MzMLError::Malformed) => {},
        other => panic!("expected a malformed-document error, got {:?}", other),
    }
}

#[test]
fn unparsable_ms_level_is_malformed() {
    let doc = "<mzML><spectrum id=\"s\">\
               <cvParam accession=\"MS:1000511\" value=\"abc\"/>\
               </spectrum></mzML>";
    match MzMLReader::new().parse(doc.as_bytes()) {
        Err(MzMLError::Malformed) => {},
        other => panic!("expected a malformed-document error, got {:?}", other),
    }
}

#[test]
fn invalid_base64_is_malformed() {
    let doc = "<mzML><spectrum id=\"s\">\
               <cvParam accession=\"MS:1000511\" value=\"1\"/>\
               <binaryDataArray>\
               <cvParam accession=\"MS:1000514\"/>\
               <binary>@@@@</binary>\
               </binaryDataArray>\
               </spectrum></mzML>";
    match MzMLReader::new().parse(doc.as_bytes()) {
        Err(MzMLError::Malformed) => {},
        other => panic!("expected a malformed-document error, got {:?}", other),
    }
}

#[test]
fn corrupt_compressed_payload_is_an_io_error() {
    let doc = format!(
        "<mzML><spectrum id=\"s\">\
         <cvParam accession=\"MS:1000511\" value=\"1\"/>\
         <binaryDataArray>\
         <cvParam accession=\"MS:1000574\"/>\
         <cvParam accession=\"MS:1000514\"/>\
         <binary>{}</binary>\
         </binaryDataArray>\
         </spectrum></mzML>",
        base64::encode(b"this is not a zlib stream")
    );
    match MzMLReader::new().parse(doc.as_bytes()) {
        Err(MzMLError::IOError(_)) => {},
        other => panic!("expected a decompression error, got {:?}", other),
    }
}

#[test]
fn payloads_of_higher_stage_spectra_are_never_decoded() {
    // MS level 2 aborts before the payload: even invalid base64 inside it
    // must not raise an error.
    let doc = "<mzML><spectrum id=\"s\">\
               <cvParam accession=\"MS:1000511\" value=\"2\"/>\
               <binaryDataArray>\
               <cvParam accession=\"MS:1000514\"/>\
               <binary>@@@@</binary>\
               </binaryDataArray>\
               </spectrum></mzML>";
    let out = MzMLReader::new().parse(doc.as_bytes()).unwrap();
    assert_eq!(out.spectra.len(), 0);
}
