//! Document parsing: data model, state machine, and its specification.
//!
//! Numeric values are fixed-point integers: m/z values and times carry
//! 10^-13 units like every mass in this crate, while intensities and ion
//! currents carry 10^-2 units, whose range reaches the magnitudes real
//! instruments report.  An ion current rounds up at its scale, so only an
//! exactly-zero current reads as zero.
//!
//! The reader is specified as a fold: `xml_events_of` names the tokenizer's
//! event stream over the document bytes, `step_model` gives the exact effect
//! of one event on an abstract parser state, and `run_model` folds the
//! stream.  `MzMLReader::parse` ensures its result — retained spectra,
//! aggregate scan range, or the fatal error — equals that fold.

use vstd::prelude::*;
use vstd::string::StringSliceAdditionalSpecFns;
use vstd::string::StrSliceExecFns;
use vstd::utf8::decode_utf8;
use vstd::utf8::valid_utf8;
use crate::ieee::payload_values;
use crate::ieee::spec_payload_values;
use crate::ieee::INTENSITY_DIGITS;
use crate::ieee::MASS_DIGITS;
use crate::numtext::parse_fixed;
use crate::numtext::parse_fixed_at;
use crate::numtext::parse_u8_text;
use crate::numtext::spec_number_fp;
use crate::numtext::spec_number_fp_ceil_at;
use crate::numtext::u8_text_value;
use crate::numtext::valid_number;
use crate::numtext::valid_u8_text;
use crate::xmlio::attr_of;
use crate::xmlio::b64_of;
use crate::xmlio::bytes_to_string;
use crate::xmlio::decode_base64;
use crate::xmlio::inflate;
use crate::xmlio::inflate_of;
use crate::xmlio::read_xml_event;
use crate::xmlio::reader_events;
use crate::xmlio::tag_attribute;
use crate::xmlio::unescape_text;
use crate::xmlio::unescaped_of;
use crate::xmlio::xml_events_of;
use crate::xmlio::xml_reader_from;
use crate::xmlio::AttrFault;
use crate::xmlio::XmlEvent;

verus! {

/// How the instrument recorded a spectrum's signal.
#[derive(Copy, Clone, Debug, PartialEq, Eq, PartialOrd, Ord, Structural)]
pub enum Representation {
    Profile,
    Centroid,
}

impl Default for Representation {
    fn default() -> (r: Self)
        ensures
            r == Representation::Profile,
    {
        Representation::Profile
    }
}

/// One spectrum: its stage, identifier, axes and per-peak arrays.
///
/// `mz` and `intensity` are parallel arrays; entries beyond the shorter of
/// the two are ignored by the search.  `scan_start_time` and `mz` carry
/// 10^-13 units, `total_ion_current` and `intensity` 10^-2 units.
#[derive(Debug, Clone)]
#[verifier::ext_equal]
pub struct Spectrum {
    pub ms_level: u8,
    pub id: String,
    pub representation: Representation,
    pub scan_start_time: u64,
    pub total_ion_current: u64,
    pub mz: Vec<u64>,
    pub intensity: Vec<u64>,
}

impl Default for Spectrum {
    fn default() -> (r: Self)
        ensures
            r.ms_level == 0,
            r.id@ == Seq::<char>::empty(),
            r.representation == Representation::Profile,
            r.scan_start_time == 0,
            r.total_ion_current == 0,
            r.mz@ == Seq::<u64>::empty(),
            r.intensity@ == Seq::<u64>::empty(),
    {
        Spectrum {
            ms_level: 0,
            id: String::new(),
            representation: Representation::Profile,
            scan_start_time: 0,
            total_ion_current: 0,
            mz: Vec::new(),
            intensity: Vec::new(),
        }
    }
}

/// The retained first-stage spectra of one acquisition, in document order,
/// with the aggregate scan range observed across the whole document.
#[derive(Debug)]
pub struct MS1Spectra {
    pub spectra: Vec<Spectrum>,
    pub scan_range: (u64, u64),
}

/// A fatal fault met while parsing a document.
#[derive(Debug)]
pub enum MzMLError {
    /// A required attribute was missing, text was not valid UTF-8, a
    /// numeric value or base64 payload did not parse, or the document held
    /// more events than it has bytes.
    Malformed,
    /// A controlled-vocabulary accession this reader cannot handle.
    UnsupportedCV(String),
    /// The tokenizer reported a fatal error while a value was extracted.
    XMLError(String),
    /// Decompression of a binary payload failed.
    IOError(String),
}

/// Which element the reader is inside.
#[derive(Copy, Clone, Debug, PartialEq, Eq, Structural)]
pub enum State {
    Spectrum,
    Scan,
    BinaryDataArray,
    Binary,
    Precursor,
}

/// Which array the next binary payload fills.
#[derive(Copy, Clone, Debug, PartialEq, Eq, Structural)]
pub enum BinaryKind {
    Intensity,
    Mz,
}

/// Numeric precision of a binary payload.
#[derive(Copy, Clone, Debug, PartialEq, Eq, Structural)]
pub enum Dtype {
    F32,
    F64,
}

/// The classes of fatal parse faults, as the fold's error values.
#[derive(Copy, Clone, Debug, PartialEq, Eq, Structural)]
pub enum ParseAbort {
    Malformed,
    Xml,
    Io,
}

/// The class of a concrete parse error.
pub open spec fn abort_of(e: MzMLError) -> ParseAbort {
    match e {
        MzMLError::Malformed => ParseAbort::Malformed,
        MzMLError::UnsupportedCV(_) => ParseAbort::Malformed,
        MzMLError::XMLError(_) => ParseAbort::Xml,
        MzMLError::IOError(_) => ParseAbort::Io,
    }
}

/// A spectrum under construction, by its observable values.
#[verifier::ext_equal]
pub ghost struct SpectrumModel {
    pub ms_level: int,
    pub id: Seq<char>,
    pub representation: Representation,
    pub scan_start_time: int,
    pub total_ion_current: int,
    pub mz: Seq<u64>,
    pub intensity: Seq<u64>,
}

/// The reader's abstract state: context, payload flags, the spectrum under
/// construction, and the output accumulated so far.
#[verifier::ext_equal]
pub ghost struct ParseModel {
    pub state: Option<State>,
    pub compression: bool,
    pub dtype: Dtype,
    pub pending: Option<BinaryKind>,
    pub cur: SpectrumModel,
    pub out: Seq<SpectrumModel>,
    pub lo: int,
    pub hi: int,
}

/// A freshly reset working spectrum.
pub open spec fn cleared_model() -> SpectrumModel {
    SpectrumModel {
        ms_level: 0,
        id: Seq::<char>::empty(),
        representation: Representation::Profile,
        scan_start_time: 0,
        total_ion_current: 0,
        mz: Seq::<u64>::empty(),
        intensity: Seq::<u64>::empty(),
    }
}

/// The state before any event.
pub open spec fn init_model() -> ParseModel {
    ParseModel {
        state: None,
        compression: false,
        dtype: Dtype::F64,
        pending: None,
        cur: cleared_model(),
        out: Seq::<SpectrumModel>::empty(),
        lo: 0,
        hi: 0,
    }
}

pub open spec fn spectrum_model(s: Spectrum) -> SpectrumModel {
    SpectrumModel {
        ms_level: s.ms_level as int,
        id: s.id@,
        representation: s.representation,
        scan_start_time: s.scan_start_time as int,
        total_ion_current: s.total_ion_current as int,
        mz: s.mz@,
        intensity: s.intensity@,
    }
}

/// The state-transition table for an opening element: keyed on the element
/// name and the current context; unrecognized pairs change nothing.
pub open spec fn spec_transition(st: Option<State>, name: Seq<u8>) -> Option<State> {
    if name == "spectrum".spec_bytes() {
        Some(State::Spectrum)
    } else if name == "scan".spec_bytes() && st == Some(State::Spectrum) {
        Some(State::Scan)
    } else if name == "binaryDataArray".spec_bytes() && st == Some(State::Spectrum) {
        Some(State::BinaryDataArray)
    } else if name == "binary".spec_bytes() && st == Some(State::BinaryDataArray) {
        Some(State::Binary)
    } else if name == "precursor".spec_bytes() && st == Some(State::Spectrum) {
        Some(State::Precursor)
    } else {
        st
    }
}

/// The closing-element context table for non-spectrum elements.
pub open spec fn spec_end_transition(st: Option<State>, name: Seq<u8>) -> Option<State> {
    if name == "binary".spec_bytes() && st == Some(State::Binary) {
        Some(State::BinaryDataArray)
    } else if name == "binaryDataArray".spec_bytes() && st == Some(State::BinaryDataArray) {
        Some(State::Spectrum)
    } else if name == "scan".spec_bytes() && st == Some(State::Scan) {
        Some(State::Spectrum)
    } else {
        st
    }
}

/// Extract a required, UTF-8-valid attribute: a missing attribute or bad
/// encoding is a malformed document, unparsable attribute syntax a
/// tokenizer fault.
pub open spec fn attr_fetch(content: Seq<u8>, nlen: int, key: Seq<char>) -> Result<
    Seq<u8>,
    ParseAbort,
> {
    match attr_of(content, nlen, key) {
        Err(enc) => Err(
            if enc {
                ParseAbort::Malformed
            } else {
                ParseAbort::Xml
            },
        ),
        Ok(None) => Err(ParseAbort::Malformed),
        Ok(Some(v)) => if valid_utf8(v) {
            Ok(v)
        } else {
            Err(ParseAbort::Malformed)
        },
    }
}

/// The effect of an opening element: step the context, and on a spectrum
/// element record its required identifier.
pub open spec fn step_start(m: ParseModel, name: Seq<u8>, content: Seq<u8>) -> Result<
    ParseModel,
    ParseAbort,
> {
    let m1 = ParseModel { state: spec_transition(m.state, name), ..m };
    if name == "spectrum".spec_bytes() {
        match attr_fetch(content, name.len() as int, "id"@) {
            Err(k) => Err(k),
            Ok(v) => Ok(
                ParseModel { cur: SpectrumModel { id: decode_utf8(v), ..m1.cur }, ..m1 },
            ),
        }
    } else {
        Ok(m1)
    }
}

/// The effect of a binary-array vocabulary accession: compression and
/// precision are sticky flags, the array identity is cleared by anything
/// unrecognized.
pub open spec fn model_cv_binary(m: ParseModel, acc: Seq<u8>) -> ParseModel {
    if acc == "MS:1000574".spec_bytes() {  // zlib compression
        ParseModel { compression: true, ..m }
    } else if acc == "MS:1000576".spec_bytes() {  // no compression
        ParseModel { compression: false, ..m }
    } else if acc == "MS:1000523".spec_bytes() {  // 64-bit float
        ParseModel { dtype: Dtype::F64, ..m }
    } else if acc == "MS:1000521".spec_bytes() {  // 32-bit float
        ParseModel { dtype: Dtype::F32, ..m }
    } else if acc == "MS:1000515".spec_bytes() {  // intensity array
        ParseModel { pending: Some(BinaryKind::Intensity), ..m }
    } else if acc == "MS:1000514".spec_bytes() {  // m/z array
        ParseModel { pending: Some(BinaryKind::Mz), ..m }
    } else {
        ParseModel { pending: None, ..m }
    }
}

/// Recording the MS level; any stage other than 1 abandons the spectrum at
/// once so its payloads are never decoded.
pub open spec fn model_ms_level(m: ParseModel, level: int) -> ParseModel {
    if level != 1 {
        ParseModel { cur: cleared_model(), state: None, ..m }
    } else {
        ParseModel { cur: SpectrumModel { ms_level: 1, ..m.cur }, ..m }
    }
}

/// Recording the total ion current; a current of exactly 0 abandons the
/// spectrum at once.
pub open spec fn model_tic(m: ParseModel, tic: int) -> ParseModel {
    if tic == 0 {
        ParseModel { cur: cleared_model(), state: None, ..m }
    } else {
        ParseModel { cur: SpectrumModel { total_ion_current: tic, ..m.cur }, ..m }
    }
}

/// The effect of a vocabulary parameter in spectrum context.
pub open spec fn model_cv_spectrum(m: ParseModel, content: Seq<u8>, nlen: int) -> Result<
    ParseModel,
    ParseAbort,
> {
    match attr_fetch(content, nlen, "accession"@) {
        Err(k) => Err(k),
        Ok(acc) => {
            if acc == "MS:1000511".spec_bytes() {  // MS level
                match attr_fetch(content, nlen, "value"@) {
                    Err(k) => Err(k),
                    Ok(v) => if valid_u8_text(v) {
                        Ok(model_ms_level(m, u8_text_value(v)))
                    } else {
                        Err(ParseAbort::Malformed)
                    },
                }
            } else if acc == "MS:1000128".spec_bytes() {  // profile
                Ok(
                    ParseModel {
                        cur: SpectrumModel { representation: Representation::Profile, ..m.cur },
                        ..m
                    },
                )
            } else if acc == "MS:1000127".spec_bytes() {  // centroid
                Ok(
                    ParseModel {
                        cur: SpectrumModel { representation: Representation::Centroid, ..m.cur },
                        ..m
                    },
                )
            } else if acc == "MS:1000285".spec_bytes() {  // total ion current
                match attr_fetch(content, nlen, "value"@) {
                    Err(k) => Err(k),
                    Ok(v) => if valid_number(v) {
                        Ok(model_tic(m, spec_number_fp_ceil_at(v, INTENSITY_DIGITS as int)))
                    } else {
                        Err(ParseAbort::Malformed)
                    },
                }
            } else {
                Ok(m)
            }
        },
    }
}

/// The effect of a vocabulary parameter in scan context: every parameter
/// must carry a value; the recognized ones record the scan start time or
/// widen the aggregate scan range monotonically.
pub open spec fn model_cv_scan(m: ParseModel, content: Seq<u8>, nlen: int) -> Result<
    ParseModel,
    ParseAbort,
> {
    match attr_fetch(content, nlen, "accession"@) {
        Err(k) => Err(k),
        Ok(acc) => match attr_fetch(content, nlen, "value"@) {
            Err(k) => Err(k),
            Ok(v) => {
                if acc == "MS:1000016".spec_bytes() {  // scan start time
                    if valid_number(v) {
                        Ok(
                            ParseModel {
                                cur: SpectrumModel {
                                    scan_start_time: spec_number_fp(v),
                                    ..m.cur
                                },
                                ..m
                            },
                        )
                    } else {
                        Err(ParseAbort::Malformed)
                    }
                } else if acc == "MS:1000501".spec_bytes() {  // window lower bound
                    if valid_number(v) {
                        Ok(
                            ParseModel {
                                lo: if spec_number_fp(v) < m.lo {
                                    spec_number_fp(v)
                                } else {
                                    m.lo
                                },
                                ..m
                            },
                        )
                    } else {
                        Err(ParseAbort::Malformed)
                    }
                } else if acc == "MS:1000500".spec_bytes() {  // window upper bound
                    if valid_number(v) {
                        Ok(
                            ParseModel {
                                hi: if spec_number_fp(v) > m.hi {
                                    spec_number_fp(v)
                                } else {
                                    m.hi
                                },
                                ..m
                            },
                        )
                    } else {
                        Err(ParseAbort::Malformed)
                    }
                } else {
                    Ok(m)
                }
            },
        },
    }
}

/// The effect of a self-closing element: vocabulary parameters are
/// interpreted by context; everything else is ignored.
pub open spec fn step_empty(m: ParseModel, name: Seq<u8>, content: Seq<u8>) -> Result<
    ParseModel,
    ParseAbort,
> {
    if name != "cvParam".spec_bytes() {
        Ok(m)
    } else {
        match m.state {
            Some(State::BinaryDataArray) => match attr_fetch(
                content,
                name.len() as int,
                "accession"@,
            ) {
                Err(k) => Err(k),
                Ok(acc) => Ok(model_cv_binary(m, acc)),
            },
            Some(State::Spectrum) => model_cv_spectrum(m, content, name.len() as int),
            Some(State::Scan) => model_cv_scan(m, content, name.len() as int),
            _ => Ok(m),
        }
    }
}

/// The effect of a closing element: closing a spectrum keeps it exactly
/// when its MS level is 1 and its total ion current is nonzero, then
/// resets unconditionally; payload contexts step back out.
pub open spec fn step_end(m: ParseModel, name: Seq<u8>) -> ParseModel {
    if name == "spectrum".spec_bytes() {
        ParseModel {
            out: if m.cur.ms_level == 1 && m.cur.total_ion_current != 0 {
                m.out.push(m.cur)
            } else {
                m.out
            },
            cur: cleared_model(),
            state: None,
            ..m
        }
    } else {
        ParseModel { state: spec_end_transition(m.state, name), ..m }
    }
}

/// The effect of character data: only in binary context and only for a
/// first-stage spectrum is the payload decoded (base64, optional zlib,
/// little-endian words at the recorded precision) into the pending array;
/// empty or unidentified payloads are skipped.
pub open spec fn step_text(m: ParseModel, raw: Seq<u8>) -> Result<ParseModel, ParseAbort> {
    if m.state != Some(State::Binary) {
        Ok(m)
    } else if m.cur.ms_level != 1 {
        Ok(m)
    } else {
        match unescaped_of(raw) {
            Err(_) => Err(ParseAbort::Xml),
            Ok(un) => {
                if un.len() == 0 || m.pending is None {
                    Ok(m)
                } else {
                    match b64_of(un) {
                        Err(_) => Err(ParseAbort::Malformed),
                        Ok(decoded) => {
                            let payload = if m.compression {
                                inflate_of(decoded)
                            } else {
                                Ok(decoded)
                            };
                            match payload {
                                Err(_) => Err(ParseAbort::Io),
                                Ok(bytes) => {
                                    let d: nat = if m.pending == Some(BinaryKind::Mz) {
                                        MASS_DIGITS as nat
                                    } else {
                                        INTENSITY_DIGITS as nat
                                    };
                                    let vals = spec_payload_values(
                                        bytes,
                                        m.dtype == Dtype::F64,
                                        d,
                                    );
                                    if m.pending == Some(BinaryKind::Mz) {
                                        Ok(
                                            ParseModel {
                                                pending: None,
                                                cur: SpectrumModel { mz: vals, ..m.cur },
                                                ..m
                                            },
                                        )
                                    } else {
                                        Ok(
                                            ParseModel {
                                                pending: None,
                                                cur: SpectrumModel { intensity: vals, ..m.cur },
                                                ..m
                                            },
                                        )
                                    }
                                },
                            }
                        },
                    }
                }
            },
        }
    }
}

/// The exact effect of one tokenizer event on the parser state.
pub open spec fn step_model(m: ParseModel, e: XmlEvent) -> Result<ParseModel, ParseAbort> {
    match e {
        XmlEvent::StartTag { name, content } => step_start(m, name@, content@),
        XmlEvent::EmptyTag { name, content } => step_empty(m, name@, content@),
        XmlEvent::EndTag { name } => Ok(step_end(m, name@)),
        XmlEvent::Text { raw } => step_text(m, raw@),
        XmlEvent::Eof => Ok(m),
        XmlEvent::Other => Ok(m),
        XmlEvent::ReadError { msg: _ } => Ok(m),  // recoverable noise is skipped
    }
}

/// Fold the event stream: stop at end-of-stream, abort on the first fatal
/// fault, and treat an event count beyond the fuel (the document's byte
/// count plus two) as malformed.
pub open spec fn run_model(events: Seq<XmlEvent>, fuel: nat, m: ParseModel) -> Result<
    ParseModel,
    ParseAbort,
>
    decreases fuel,
{
    if fuel == 0 {
        Err(ParseAbort::Malformed)
    } else if events.len() == 0 {
        Ok(m)
    } else if events[0] is Eof {
        Ok(m)
    } else {
        match step_model(m, events[0]) {
            Err(k) => Err(k),
            Ok(m2) => run_model(events.drop_first(), (fuel - 1) as nat, m2),
        }
    }
}

/// The whole document's fold.
pub open spec fn spec_parse(data: Seq<u8>) -> Result<ParseModel, ParseAbort> {
    run_model(xml_events_of(data), (data.len() + 2) as nat, init_model())
}

/// The concrete output presents exactly the model's.
pub open spec fn model_matches(out: MS1Spectra, m: ParseModel) -> bool {
    &&& out.spectra@.len() == m.out.len()
    &&& (forall|i: int|
        0 <= i < m.out.len() ==> spectrum_model(#[trigger] out.spectra@[i]) == m.out[i])
    &&& out.scan_range.0 == m.lo
    &&& out.scan_range.1 == m.hi
}

/// The reader's concrete working state (the model's exec counterpart).
#[verifier::ext_equal]
struct Parser {
    state: Option<State>,
    compression: bool,
    dtype: Dtype,
    pending: Option<BinaryKind>,
    spectrum: Spectrum,
    spectra: Vec<Spectrum>,
    lo: u64,
    hi: u64,
}

spec fn parser_model(p: Parser) -> ParseModel {
    ParseModel {
        state: p.state,
        compression: p.compression,
        dtype: p.dtype,
        pending: p.pending,
        cur: spectrum_model(p.spectrum),
        out: p.spectra@.map(|i: int, s: Spectrum| spectrum_model(s)),
        lo: p.lo as int,
        hi: p.hi as int,
    }
}

/// Compare a tag or accession (raw bytes) against an ASCII name.
fn name_is(name: &Vec<u8>, lit: &str) -> (r: bool)
    ensures
        r == (name@ == lit.spec_bytes()),
{
    let lb: Vec<u8> = lit.as_bytes_vec();
    let n: usize = lb.len();
    if name.len() != n {
        return false;
    }
    let mut i: usize = 0;
    while i < n
        invariant
            lb@ == lit.spec_bytes(),
            n == lb@.len(),
            n == name@.len(),
            0 <= i <= n,
            forall|j: int| 0 <= j < i ==> name@[j] == lb@[j],
        decreases n - i,
    {
        if name[i] != lb[i] {
            return false;
        }
        i = i + 1;
    }
    proof {
        assert(name@ =~= lb@);
    }
    true
}

impl Parser {
    fn new_parser() -> (r: Parser)
        ensures
            parser_model(r) =~= init_model(),
    {
        let r = Parser {
            state: None,
            compression: false,
            dtype: Dtype::F64,
            pending: None,
            spectrum: Spectrum::default(),
            spectra: Vec::new(),
            lo: 0,
            hi: 0,
        };
        proof {
            assert(parser_model(r).out =~= init_model().out);
            assert(parser_model(r).cur =~= init_model().cur);
        }
        r
    }

    /// Step the context on an opening element.
    fn transition_start(&mut self, name: &Vec<u8>)
        ensures
            parser_model(*final(self)) == (ParseModel {
                state: spec_transition(parser_model(*old(self)).state, name@),
                ..parser_model(*old(self))
            }),
    {
        let is_spectrum: bool = name_is(name, "spectrum");
        let is_scan: bool = name_is(name, "scan");
        let is_bda: bool = name_is(name, "binaryDataArray");
        let is_binary: bool = name_is(name, "binary");
        let is_precursor: bool = name_is(name, "precursor");
        let in_spectrum: bool = match self.state {
            Some(State::Spectrum) => true,
            _ => false,
        };
        let in_bda: bool = match self.state {
            Some(State::BinaryDataArray) => true,
            _ => false,
        };
        if is_spectrum {
            self.state = Some(State::Spectrum);
        } else if is_scan && in_spectrum {
            self.state = Some(State::Scan);
        } else if is_bda && in_spectrum {
            self.state = Some(State::BinaryDataArray);
        } else if is_binary && in_bda {
            self.state = Some(State::Binary);
        } else if is_precursor && in_spectrum {
            self.state = Some(State::Precursor);
        }
        proof {
            assert(parser_model(*self) =~= (ParseModel {
                state: spec_transition(parser_model(*old(self)).state, name@),
                ..parser_model(*old(self))
            }));
        }
    }

    fn set_spectrum_id(&mut self, id: String)
        ensures
            parser_model(*final(self)) == (ParseModel {
                cur: (SpectrumModel { id: id@, ..parser_model(*old(self)).cur }),
                ..parser_model(*old(self))
            }),
    {
        self.spectrum.id = id;
        proof {
            assert(parser_model(*self) =~= (ParseModel {
                cur: (SpectrumModel { id: self.spectrum.id@, ..parser_model(*old(self)).cur }),
                ..parser_model(*old(self))
            }));
        }
    }

    /// Apply a binary-array vocabulary accession.
    fn apply_cv_binary_array(&mut self, acc: &Vec<u8>)
        ensures
            parser_model(*final(self)) == model_cv_binary(parser_model(*old(self)), acc@),
    {
        if name_is(acc, "MS:1000574") {
            self.compression = true;
        } else if name_is(acc, "MS:1000576") {
            self.compression = false;
        } else if name_is(acc, "MS:1000523") {
            self.dtype = Dtype::F64;
        } else if name_is(acc, "MS:1000521") {
            self.dtype = Dtype::F32;
        } else if name_is(acc, "MS:1000515") {
            self.pending = Some(BinaryKind::Intensity);
        } else if name_is(acc, "MS:1000514") {
            self.pending = Some(BinaryKind::Mz);
        } else {
            self.pending = None;
        }
        proof {
            assert(parser_model(*self) =~= model_cv_binary(parser_model(*old(self)), acc@));
        }
    }

    /// Record the MS level; any stage other than 1 abandons the spectrum
    /// at once so its payloads are never decoded.
    fn apply_ms_level(&mut self, level: u8)
        ensures
            parser_model(*final(self)) == model_ms_level(parser_model(*old(self)), level as int),
    {
        if level != 1 {
            self.spectrum = Spectrum::default();
            self.state = None;
            proof {
                assert(spectrum_model(self.spectrum) =~= cleared_model());
                assert(parser_model(*self) =~= model_ms_level(
                    parser_model(*old(self)),
                    level as int,
                ));
            }
        } else {
            self.spectrum.ms_level = level;
            proof {
                assert(parser_model(*self) =~= model_ms_level(
                    parser_model(*old(self)),
                    level as int,
                ));
            }
        }
    }

    fn apply_representation(&mut self, rep: Representation)
        ensures
            parser_model(*final(self)) == (ParseModel {
                cur: (SpectrumModel { representation: rep, ..parser_model(*old(self)).cur }),
                ..parser_model(*old(self))
            }),
    {
        self.spectrum.representation = rep;
        proof {
            assert(parser_model(*self) =~= (ParseModel {
                cur: (SpectrumModel { representation: rep, ..parser_model(*old(self)).cur }),
                ..parser_model(*old(self))
            }));
        }
    }

    /// Record the total ion current; a current of exactly 0 abandons the
    /// spectrum at once.
    fn apply_tic(&mut self, tic: u64)
        ensures
            parser_model(*final(self)) == model_tic(parser_model(*old(self)), tic as int),
    {
        if tic == 0 {
            self.spectrum = Spectrum::default();
            self.state = None;
            proof {
                assert(spectrum_model(self.spectrum) =~= cleared_model());
                assert(parser_model(*self) =~= model_tic(parser_model(*old(self)), tic as int));
            }
        } else {
            self.spectrum.total_ion_current = tic;
            proof {
                assert(parser_model(*self) =~= model_tic(parser_model(*old(self)), tic as int));
            }
        }
    }

    fn apply_scan_start(&mut self, t: u64)
        ensures
            parser_model(*final(self)) == (ParseModel {
                cur: (SpectrumModel {
                    scan_start_time: t as int,
                    ..parser_model(*old(self)).cur
                }),
                ..parser_model(*old(self))
            }),
    {
        self.spectrum.scan_start_time = t;
        proof {
            assert(parser_model(*self) =~= (ParseModel {
                cur: (SpectrumModel {
                    scan_start_time: t as int,
                    ..parser_model(*old(self)).cur
                }),
                ..parser_model(*old(self))
            }));
        }
    }

    /// Widen the aggregate scan range downward (the lower bound only ever
    /// decreases).
    fn apply_window_lower(&mut self, v: u64)
        ensures
            parser_model(*final(self)) == (ParseModel {
                lo: if v < old(self).lo {
                    v as int
                } else {
                    old(self).lo as int
                },
                ..parser_model(*old(self))
            }),
    {
        if v < self.lo {
            self.lo = v;
        }
        proof {
            assert(parser_model(*self) =~= (ParseModel {
                lo: if v < old(self).lo {
                    v as int
                } else {
                    old(self).lo as int
                },
                ..parser_model(*old(self))
            }));
        }
    }

    /// Widen the aggregate scan range upward (the upper bound only ever
    /// increases).
    fn apply_window_upper(&mut self, v: u64)
        ensures
            parser_model(*final(self)) == (ParseModel {
                hi: if v > old(self).hi {
                    v as int
                } else {
                    old(self).hi as int
                },
                ..parser_model(*old(self))
            }),
    {
        if v > self.hi {
            self.hi = v;
        }
        proof {
            assert(parser_model(*self) =~= (ParseModel {
                hi: if v > old(self).hi {
                    v as int
                } else {
                    old(self).hi as int
                },
                ..parser_model(*old(self))
            }));
        }
    }

    /// Close an element.
    fn on_end(&mut self, name: &Vec<u8>)
        ensures
            parser_model(*final(self)) == step_end(parser_model(*old(self)), name@),
    {
        let is_spectrum: bool = name_is(name, "spectrum");
        let is_binary: bool = name_is(name, "binary");
        let is_bda: bool = name_is(name, "binaryDataArray");
        let is_scan: bool = name_is(name, "scan");
        let in_binary: bool = match self.state {
            Some(State::Binary) => true,
            _ => false,
        };
        let in_bda: bool = match self.state {
            Some(State::BinaryDataArray) => true,
            _ => false,
        };
        let in_scan: bool = match self.state {
            Some(State::Scan) => true,
            _ => false,
        };
        if is_spectrum {
            let mut done: Spectrum = Spectrum::default();
            core::mem::swap(&mut self.spectrum, &mut done);
            if done.ms_level == 1 && done.total_ion_current != 0 {
                self.spectra.push(done);
            }
            self.state = None;
            proof {
                assert(spectrum_model(self.spectrum) =~= cleared_model());
                assert(parser_model(*self).out =~= step_end(
                    parser_model(*old(self)),
                    name@,
                ).out);
                assert(parser_model(*self) =~= step_end(parser_model(*old(self)), name@));
            }
        } else if is_binary && in_binary {
            self.state = Some(State::BinaryDataArray);
        } else if is_bda && in_bda {
            self.state = Some(State::Spectrum);
        } else if is_scan && in_scan {
            self.state = Some(State::Spectrum);
        }
        proof {
            assert(parser_model(*self) =~= step_end(parser_model(*old(self)), name@));
        }
    }

    /// Decode one binary payload into the pending array, exactly as the
    /// fold's `step_text` describes.
    fn handle_binary_text(&mut self, raw: &Vec<u8>) -> (r: Result<(), MzMLError>)
        requires
            old(self).state == Some(State::Binary),
        ensures
            match step_text(parser_model(*old(self)), raw@) {
                Ok(m2) => r is Ok && parser_model(*final(self)) == m2,
                Err(k) => r matches Err(e) && abort_of(e) == k && *final(self) == *old(self),
            },
    {
        if self.spectrum.ms_level != 1 {
            return Ok(());
        }
        let un: Vec<u8> = match unescape_text(raw) {
            Ok(v) => v,
            Err(msg) => {
                return Err(MzMLError::XMLError(msg));
            },
        };
        if un.len() == 0 {
            return Ok(());
        }
        let kind: BinaryKind = match self.pending {
            Some(k) => k,
            None => {
                return Ok(());
            },
        };
        let decoded: Vec<u8> = match decode_base64(&un) {
            Ok(v) => v,
            Err(_msg) => {
                return Err(MzMLError::Malformed);
            },
        };
        let payload: Vec<u8> = if self.compression {
            match inflate(&decoded) {
                Ok(v) => v,
                Err(msg) => {
                    return Err(MzMLError::IOError(msg));
                },
            }
        } else {
            decoded
        };
        let wide: bool = match self.dtype {
            Dtype::F64 => true,
            Dtype::F32 => false,
        };
        let digits: u64 = match kind {
            BinaryKind::Mz => MASS_DIGITS,
            BinaryKind::Intensity => INTENSITY_DIGITS,
        };
        let vals: Vec<u64> = payload_values(&payload, wide, digits);
        match kind {
            BinaryKind::Mz => {
                self.spectrum.mz = vals;
            },
            BinaryKind::Intensity => {
                self.spectrum.intensity = vals;
            },
        }
        self.pending = None;
        proof {
            let m2 = step_text(parser_model(*old(self)), raw@);
            assert(m2 matches Ok(m) && parser_model(*self) =~= m);
        }
        Ok(())
    }

    /// Handle one opening element, exactly as the fold's `step_start`
    /// describes.
    fn handle_start(&mut self, name: &Vec<u8>, content: &Vec<u8>) -> (r: Result<(), MzMLError>)
        requires
            name@.len() <= content@.len(),
        ensures
            match step_start(parser_model(*old(self)), name@, content@) {
                Ok(m2) => r is Ok && parser_model(*final(self)) == m2,
                Err(k) => r matches Err(e) && abort_of(e) == k,
            },
    {
        self.transition_start(name);
        if name_is(name, "spectrum") {
            let idb: Vec<u8> = match fetch_attribute(content, name.len(), "id") {
                Ok(v) => v,
                Err(e) => {
                    return Err(e);
                },
            };
            let id: String = match bytes_to_string(&idb) {
                Ok(s) => s,
                Err(()) => {
                    return Err(MzMLError::Malformed);
                },
            };
            self.set_spectrum_id(id);
        }
        Ok(())
    }

    /// Handle one vocabulary parameter in spectrum context, exactly as the
    /// fold's `model_cv_spectrum` describes.
    fn handle_cv_spectrum(&mut self, content: &Vec<u8>, nlen: usize) -> (r: Result<(), MzMLError>)
        requires
            nlen <= content@.len(),
        ensures
            match model_cv_spectrum(parser_model(*old(self)), content@, nlen as int) {
                Ok(m2) => r is Ok && parser_model(*final(self)) == m2,
                Err(k) => r matches Err(e) && abort_of(e) == k,
            },
    {
        let acc = match fetch_attribute(content, nlen, "accession") {
            Ok(v) => v,
            Err(e) => {
                return Err(e);
            },
        };
        if name_is(&acc, "MS:1000511") {  // MS level
            let vb = match fetch_attribute(content, nlen, "value") {
                Ok(v) => v,
                Err(e) => {
                    return Err(e);
                },
            };
            let level: u8 = match parse_u8_text(&vb) {
                Some(l) => l,
                None => {
                    return Err(MzMLError::Malformed);
                },
            };
            self.apply_ms_level(level);
        } else if name_is(&acc, "MS:1000128") {  // profile
            self.apply_representation(Representation::Profile);
        } else if name_is(&acc, "MS:1000127") {  // centroid
            self.apply_representation(Representation::Centroid);
        } else if name_is(&acc, "MS:1000285") {  // total ion current
            let vb = match fetch_attribute(content, nlen, "value") {
                Ok(v) => v,
                Err(e) => {
                    return Err(e);
                },
            };
            let tic: u64 = match parse_fixed_at(&vb, INTENSITY_DIGITS, true) {
                Some(v) => v,
                None => {
                    return Err(MzMLError::Malformed);
                },
            };
            self.apply_tic(tic);
        }
        Ok(())
    }

    /// Handle one vocabulary parameter in scan context, exactly as the
    /// fold's `model_cv_scan` describes.
    fn handle_cv_scan(&mut self, content: &Vec<u8>, nlen: usize) -> (r: Result<(), MzMLError>)
        requires
            nlen <= content@.len(),
        ensures
            match model_cv_scan(parser_model(*old(self)), content@, nlen as int) {
                Ok(m2) => r is Ok && parser_model(*final(self)) == m2,
                Err(k) => r matches Err(e) && abort_of(e) == k,
            },
    {
        let acc = match fetch_attribute(content, nlen, "accession") {
            Ok(v) => v,
            Err(e) => {
                return Err(e);
            },
        };
        let vb = match fetch_attribute(content, nlen, "value") {
            Ok(v) => v,
            Err(e) => {
                return Err(e);
            },
        };
        if name_is(&acc, "MS:1000016") {  // scan start time
            let t: u64 = match parse_fixed(&vb) {
                Some(v) => v,
                None => {
                    return Err(MzMLError::Malformed);
                },
            };
            self.apply_scan_start(t);
        } else if name_is(&acc, "MS:1000501") {  // window lower bound
            let v: u64 = match parse_fixed(&vb) {
                Some(v) => v,
                None => {
                    return Err(MzMLError::Malformed);
                },
            };
            self.apply_window_lower(v);
        } else if name_is(&acc, "MS:1000500") {  // window upper bound
            let v: u64 = match parse_fixed(&vb) {
                Some(v) => v,
                None => {
                    return Err(MzMLError::Malformed);
                },
            };
            self.apply_window_upper(v);
        }
        Ok(())
    }

    /// Handle one self-closing element, exactly as the fold's `step_empty`
    /// describes.
    fn handle_empty(&mut self, name: &Vec<u8>, content: &Vec<u8>) -> (r: Result<(), MzMLError>)
        requires
            name@.len() <= content@.len(),
        ensures
            match step_empty(parser_model(*old(self)), name@, content@) {
                Ok(m2) => r is Ok && parser_model(*final(self)) == m2,
                Err(k) => r matches Err(e) && abort_of(e) == k,
            },
    {
        if !name_is(name, "cvParam") {
            return Ok(());
        }
        match self.state {
            Some(State::BinaryDataArray) => {
                let acc = match fetch_attribute(content, name.len(), "accession") {
                    Ok(v) => v,
                    Err(e) => {
                        return Err(e);
                    },
                };
                self.apply_cv_binary_array(&acc);
                Ok(())
            },
            Some(State::Spectrum) => self.handle_cv_spectrum(content, name.len()),
            Some(State::Scan) => self.handle_cv_scan(content, name.len()),
            _ => Ok(()),
        }
    }

}

/// Streaming reader for the instrument-output document format.
pub struct MzMLReader;

impl MzMLReader {
    /// Create a new `MzMLReader`.
    pub fn new() -> (r: Self) {
        MzMLReader
    }

    /// Parse one document and return its retained first-stage spectra.
    ///
    /// The result equals the fold of `step_model` over the document's
    /// tokenizer events (`spec_parse`): on success the retained spectra —
    /// each with MS level 1 and nonzero total ion current — and the
    /// aggregate scan range; on the first fatal fault the matching error
    /// (malformed document, tokenizer fault while extracting a value, or
    /// failed decompression).  Tokenizer-level noise is skipped.
    pub fn parse(&self, data: &[u8]) -> (r: Result<MS1Spectra, MzMLError>)
        ensures
            r is Ok <==> spec_parse(data@) is Ok,
            r matches Ok(out) ==> spec_parse(data@) matches Ok(m) && model_matches(out, m),
            r matches Err(e) ==> spec_parse(data@) == Err::<ParseModel, ParseAbort>(abort_of(e)),
            r matches Ok(out) ==> ({
                &&& forall|i: int|
                    0 <= i < out.spectra@.len() ==> (#[trigger] out.spectra@[i]).ms_level == 1
                        && out.spectra@[i].total_ion_current != 0
                &&& out.scan_range.0 == 0
                &&& out.scan_range.0 <= out.scan_range.1
            }),
    {
        let mut reader = xml_reader_from(data);
        let mut st = Parser::new_parser();
        let ghost total: Result<ParseModel, ParseAbort> = spec_parse(data@);
        // Each tokenizer event consumes input, so the document's length
        // bounds the number of events before end-of-stream.
        let mut fuel: u128 = data.len() as u128 + 2;
        proof {
            assert(parser_model(st).out.len() == st.spectra@.len());
            assert(total == run_model(reader_events(reader), fuel as nat, parser_model(st)));
        }
        loop
            invariant_except_break
                total == run_model(reader_events(reader), fuel as nat, parser_model(st)),
            invariant
                total == spec_parse(data@),
                fuel <= data@.len() + 2,
                forall|i: int|
                    0 <= i < parser_model(st).out.len() ==> (#[trigger] parser_model(
                        st,
                    ).out[i]).ms_level == 1 && parser_model(st).out[i].total_ion_current != 0,
                parser_model(st).lo == 0,
            ensures
                total matches Ok(m) && m == parser_model(st),
                forall|i: int|
                    0 <= i < parser_model(st).out.len() ==> (#[trigger] parser_model(
                        st,
                    ).out[i]).ms_level == 1 && parser_model(st).out[i].total_ion_current != 0,
                parser_model(st).lo == 0,
            decreases fuel,
        {
            if fuel == 0 {
                return Err(MzMLError::Malformed);
            }
            let ghost rem0: Seq<XmlEvent> = reader_events(reader);
            let ghost m0: ParseModel = parser_model(st);
            let ghost fuel0: u128 = fuel;
            fuel = fuel - 1;
            let ev = read_xml_event(&mut reader);
            let ghost eg: XmlEvent = ev;
            match ev {
                XmlEvent::StartTag { name, content } => {
                    match st.handle_start(&name, &content) {
                        Ok(()) => {},
                        Err(e) => {
                            proof {
                                lemma_run_err(rem0, fuel0 as nat, m0, abort_of(e));
                            }
                            return Err(e);
                        },
                    }
                    proof {
                        assert(step_model(m0, eg) == Ok::<ParseModel, ParseAbort>(parser_model(
                            st,
                        )));
                    }
                },
                XmlEvent::EmptyTag { name, content } => {
                    match st.handle_empty(&name, &content) {
                        Ok(()) => {},
                        Err(e) => {
                            proof {
                                lemma_run_err(rem0, fuel0 as nat, m0, abort_of(e));
                            }
                            return Err(e);
                        },
                    }
                    proof {
                        assert(step_model(m0, eg) == Ok::<ParseModel, ParseAbort>(parser_model(
                            st,
                        )));
                    }
                },
                XmlEvent::EndTag { name } => {
                    st.on_end(&name);
                    proof {
                        assert(step_model(m0, eg) == Ok::<ParseModel, ParseAbort>(parser_model(
                            st,
                        )));
                    }
                },
                XmlEvent::Text { raw } => {
                    let in_binary: bool = match st.state {
                        Some(State::Binary) => true,
                        _ => false,
                    };
                    if in_binary {
                        match st.handle_binary_text(&raw) {
                            Ok(()) => {},
                            Err(e) => {
                                proof {
                                    lemma_run_err(rem0, fuel0 as nat, m0, abort_of(e));
                                }
                                return Err(e);
                            },
                        }
                    }
                    proof {
                        assert(step_model(m0, eg) == Ok::<ParseModel, ParseAbort>(parser_model(
                            st,
                        )));
                    }
                },
                XmlEvent::Eof => {
                    break;
                },
                XmlEvent::Other => {},
                XmlEvent::ReadError { msg: _ } => {
                    // Tokenizer noise is recoverable: skip the event.
                },
            }
        }
        let ghost mfin: ParseModel = parser_model(st);
        let lo: u64 = st.lo;
        let hi: u64 = st.hi;
        let spectra: Vec<Spectrum> = st.spectra;
        let out = MS1Spectra { spectra, scan_range: (lo, hi) };
        proof {
            assert(mfin.out.len() == out.spectra@.len());
            assert forall|i: int| 0 <= i < mfin.out.len() implies spectrum_model(
                #[trigger] out.spectra@[i],
            ) == mfin.out[i] by {
                assert(mfin.out[i] == spectrum_model(out.spectra@[i]));
            }
            assert(model_matches(out, mfin));
            assert forall|i: int| 0 <= i < out.spectra@.len() implies (
            #[trigger] out.spectra@[i]).ms_level == 1 && out.spectra@[i].total_ion_current
                != 0 by {
                assert(mfin.out[i].ms_level == 1 && mfin.out[i].total_ion_current != 0);
                assert(spectrum_model(out.spectra@[i]) == mfin.out[i]);
            }
        }
        Ok(out)
    }
}


/// One fold step that aborts makes the whole fold abort with that fault.
proof fn lemma_run_err(events: Seq<XmlEvent>, fuel: nat, m: ParseModel, k: ParseAbort)
    requires
        fuel > 0,
        events.len() > 0,
        !(events[0] is Eof),
        step_model(m, events[0]) == Err::<ParseModel, ParseAbort>(k),
    ensures
        run_model(events, fuel, m) == Err::<ParseModel, ParseAbort>(k),
{
}

/// Extract a required attribute (UTF-8 validated), mapping the failure
/// cases to the reader's fatal errors exactly as `attr_fetch` does.
fn fetch_attribute(content: &Vec<u8>, name_len: usize, key: &str) -> (r: Result<Vec<u8>, MzMLError>)
    requires
        name_len <= content@.len(),
    ensures
        r matches Ok(v) ==> attr_fetch(content@, name_len as int, key@) == Ok::<Seq<u8>, ParseAbort>(
            v@,
        ),
        r matches Err(e) ==> attr_fetch(content@, name_len as int, key@) == Err::<
            Seq<u8>,
            ParseAbort,
        >(abort_of(e)) && (e is Malformed || e is XMLError),
{
    let raw: Vec<u8> = match tag_attribute(content, name_len, key) {
        Ok(Some(v)) => v,
        Ok(None) => {
            return Err(MzMLError::Malformed);
        },
        Err(AttrFault::Encoding) => {
            return Err(MzMLError::Malformed);
        },
        Err(AttrFault::Syntax(msg)) => {
            return Err(MzMLError::XMLError(msg));
        },
    };
    match bytes_to_string(&raw) {
        Ok(_validated) => Ok(raw),
        Err(()) => Err(MzMLError::Malformed),
    }
}

} // verus!
