//! The output extractor: vendor, model and temperature from the raw output of
//! the diagnostics utility, whatever schema the device family uses.
//!
//! Each of the three is resolved by a chain of sources tried in a fixed order,
//! the first present one winning. Output that is no structured document is
//! scanned as text for a temperature.
use crate::document::{
    attribute_views, document_of, empty_document, read_document, text_view, Attribute,
    AttributeView, Document, DocumentView,
};
use crate::json::{json_parse, parse_json, Json};
use crate::text::{
    all_digits, char_views, chars_of, contains_folded, contains_ignoring_case, decode_lossy,
    digits_value, equal_ignoring_case, folded, is_digit, is_whitespace, join, join_with_spaces,
    lemma_digits_value_bounds, lemma_tokens_shape, lines, lossy_text, matches_at, parse_integer,
    split_lines, split_tokens, string_of, tokens,
};
use vstd::prelude::*;

verus! {

/// What was recovered for one device.
#[derive(Clone, Debug, PartialEq, Eq)]
pub struct Extraction {
    pub vendor: String,
    pub model: String,
    /// The temperature in degrees Celsius; `None` where none is reported.
    pub temperature: Option<i64>,
}

/// The view of an `Extraction`.
pub struct ExtractionView {
    pub vendor: Seq<char>,
    pub model: Seq<char>,
    pub temperature: Option<i64>,
}

impl View for Extraction {
    type V = ExtractionView;

    open spec fn view(&self) -> ExtractionView {
        ExtractionView { vendor: self.vendor@, model: self.model@, temperature: self.temperature }
    }
}

/// The output was no structured document, and no temperature was found in its
/// text.
#[derive(Clone, Copy, Debug, PartialEq, Eq)]
pub struct Unusable;

/// The output of one run of the diagnostics utility: the document it parses
/// to, or its text where it is no structured document.
#[derive(Clone, Debug, PartialEq, Eq)]
pub enum RawDiagnosticDocument {
    Structured(Document),
    Text(String),
}

/// The view of a `RawDiagnosticDocument`.
pub enum RawDiagnosticDocumentView {
    Structured(DocumentView),
    Text(Seq<char>),
}

impl View for RawDiagnosticDocument {
    type V = RawDiagnosticDocumentView;

    open spec fn view(&self) -> RawDiagnosticDocumentView {
        match self {
            RawDiagnosticDocument::Structured(document) => RawDiagnosticDocumentView::Structured(
                document@,
            ),
            RawDiagnosticDocument::Text(text) => RawDiagnosticDocumentView::Text(text@),
        }
    }
}

/// The view of the result of an extraction.
pub open spec fn outcome_view(outcome: Result<Extraction, Unusable>) -> Result<
    ExtractionView,
    Unusable,
> {
    match outcome {
        Ok(extraction) => Ok(extraction@),
        Err(unusable) => Err(unusable),
    }
}

/// The vendor reported where none can be recovered.
pub open spec fn unknown_vendor() -> Seq<char> {
    "Unknown Vendor"@
}

/// The model reported where none can be recovered.
pub open spec fn unknown_model() -> Seq<char> {
    "Unknown Model"@
}

/// The first present candidate, in order.
pub open spec fn first_present<T>(candidates: Seq<Option<T>>) -> Option<T>
    decreases candidates.len(),
{
    if candidates.len() == 0 {
        None
    } else if candidates[0] is Some {
        candidates[0]
    } else {
        first_present(candidates.drop_first())
    }
}

/// Whether a name or a line speaks of a temperature: whether it contains
/// "temperature" or "temp", in any case.
pub open spec fn mentions_temperature(s: Seq<char>) -> bool {
    contains_ignoring_case(s, "temperature"@) || contains_ignoring_case(s, "temp"@)
}

/// The vendor that a family name gives: its first token, a family name being
/// "<Vendor> <Series>" by convention. A family name without a token gives the
/// unknown vendor.
pub open spec fn family_vendor(family: Seq<char>) -> Seq<char> {
    if tokens(family).len() > 0 {
        tokens(family)[0]
    } else {
        unknown_vendor()
    }
}

/// The model that a family name gives, where it has a token after its
/// first: those tokens, joined by single spaces. A family name of one token,
/// or of none, gives no model.
pub open spec fn family_model(family: Seq<char>) -> Option<Seq<char>> {
    if tokens(family).len() > 1 {
        Some(join_with_spaces(tokens(family).skip(1)))
    } else {
        None
    }
}

/// The sources of the vendor, in their order of priority: the family name,
/// the vendor field, the vendor field of the SCSI schema.
pub open spec fn vendor_sources(document: DocumentView) -> Seq<Option<Seq<char>>> {
    seq![
        match document.model_family {
            Some(family) => Some(family_vendor(family)),
            None => None,
        },
        document.vendor,
        document.scsi_vendor,
    ]
}

/// The sources of the model, in their order of priority: the model name, the
/// product, the two model fields of the SCSI schema, what is left of the
/// family name after its first token.
pub open spec fn model_sources(document: DocumentView) -> Seq<Option<Seq<char>>> {
    seq![
        document.model_name,
        document.product,
        document.scsi_product,
        document.scsi_model_name,
        match document.model_family {
            Some(family) => family_model(family),
            None => None,
        },
    ]
}

/// The temperature that one attribute gives, where its name speaks of a
/// temperature: its raw value, or else its plain value.
pub open spec fn attribute_temperature(attribute: AttributeView) -> Option<i64> {
    match attribute.name {
        Some(name) => if mentions_temperature(name) {
            first_present(seq![attribute.raw_value, attribute.value])
        } else {
            None
        },
        None => None,
    }
}

/// The temperature that a table of attributes gives: that of the first
/// attribute that gives one.
pub open spec fn table_temperature(table: Seq<AttributeView>) -> Option<i64> {
    first_present(table.map_values(|attribute: AttributeView| attribute_temperature(attribute)))
}

/// The sources of the temperature, in their order of priority: the nested
/// current temperature, the flat temperature, the temperature of the NVMe
/// health log, the table of attributes, the flat SATA temperature.
pub open spec fn temperature_sources(document: DocumentView) -> Seq<Option<i64>> {
    seq![
        document.temperature_current,
        document.temperature,
        document.nvme_temperature,
        match document.attributes {
            Some(table) => table_temperature(table),
            None => None,
        },
        document.sata_temperature,
    ]
}

/// The vendor of a document: what its first present source gives, or unknown.
pub open spec fn vendor_of(document: DocumentView) -> Seq<char> {
    match first_present(vendor_sources(document)) {
        Some(vendor) => vendor,
        None => unknown_vendor(),
    }
}

/// The model of a document: what its first present source gives, or unknown.
pub open spec fn model_of(document: DocumentView) -> Seq<char> {
    match first_present(model_sources(document)) {
        Some(model) => model,
        None => unknown_model(),
    }
}

/// The temperature of a document: what its first present source gives.
pub open spec fn temperature_of(document: DocumentView) -> Option<i64> {
    first_present(temperature_sources(document))
}

/// What is extracted from a structured document.
pub open spec fn extraction_of(document: DocumentView) -> ExtractionView {
    ExtractionView {
        vendor: vendor_of(document),
        model: model_of(document),
        temperature: temperature_of(document),
    }
}

/// The temperature that a token stands for: its value, where it is a decimal
/// integer strictly between 0 and 150.
pub open spec fn qualifying_temperature(token: Seq<char>) -> Option<i64> {
    match parse_integer(token) {
        Some(value) => if 0 < value < 150 {
            Some(value as i64)
        } else {
            None
        },
        None => None,
    }
}

/// The temperature that a line of text gives: that of its first qualifying
/// token, where the line speaks of a temperature.
pub open spec fn line_temperature(line: Seq<char>) -> Option<i64> {
    if mentions_temperature(line) {
        first_present(tokens(line).map_values(|token: Seq<char>| qualifying_temperature(token)))
    } else {
        None
    }
}

/// The temperature that a text gives: that of its first line that gives one.
pub open spec fn text_temperature(text: Seq<char>) -> Option<i64> {
    first_present(lines(text).map_values(|line: Seq<char>| line_temperature(line)))
}

/// What is extracted from the output of one run.
pub open spec fn raw_extraction(raw: RawDiagnosticDocumentView) -> Result<ExtractionView, Unusable> {
    match raw {
        RawDiagnosticDocumentView::Structured(document) => Ok(extraction_of(document)),
        RawDiagnosticDocumentView::Text(text) => match text_temperature(text) {
            Some(temperature) => Ok(
                ExtractionView {
                    vendor: unknown_vendor(),
                    model: unknown_model(),
                    temperature: Some(temperature),
                },
            ),
            None => Err(Unusable),
        },
    }
}

/// The document or text that raw output decodes to. Output is a structured
/// document where its text parses as a JSON object; any other output is
/// text. Empty output is the empty text.
pub open spec fn raw_document_of(raw: Seq<u8>) -> RawDiagnosticDocumentView {
    if raw.len() == 0 {
        RawDiagnosticDocumentView::Text(Seq::empty())
    } else {
        let text = lossy_text(raw);
        match json_parse(text) {
            Some(json) => if json is Object {
                RawDiagnosticDocumentView::Structured(document_of(json))
            } else {
                RawDiagnosticDocumentView::Text(text)
            },
            None => RawDiagnosticDocumentView::Text(text),
        }
    }
}

/// What is extracted from raw output.
pub open spec fn extraction_of_output(raw: Seq<u8>) -> Result<ExtractionView, Unusable> {
    raw_extraction(raw_document_of(raw))
}

/// Candidates that are all absent up to `i` do not matter.
pub proof fn lemma_first_present_skip<T>(candidates: Seq<Option<T>>, i: int)
    requires
        0 <= i <= candidates.len(),
        forall|k: int| 0 <= k < i ==> candidates[k] is None,
    ensures
        first_present(candidates) == first_present(candidates.skip(i)),
    decreases i,
{
    if i == 0 {
        assert(candidates.skip(0) =~= candidates);
    } else {
        lemma_first_present_skip(candidates, i - 1);
        assert(candidates.skip(i - 1)[0] == candidates[i - 1]);
        assert(candidates.skip(i - 1).drop_first() =~= candidates.skip(i));
    }
}

/// The first present candidate is the one before which all are absent.
pub proof fn lemma_first_present_at<T>(candidates: Seq<Option<T>>, i: int)
    requires
        0 <= i < candidates.len(),
        forall|k: int| 0 <= k < i ==> candidates[k] is None,
        candidates[i] is Some,
    ensures
        first_present(candidates) == candidates[i],
{
    lemma_first_present_skip(candidates, i);
    assert(candidates.skip(i)[0] == candidates[i]);
}

/// Without a present candidate there is no first one.
pub proof fn lemma_first_present_none<T>(candidates: Seq<Option<T>>)
    requires
        forall|k: int| 0 <= k < candidates.len() ==> candidates[k] is None,
    ensures
        first_present(candidates) is None,
{
    lemma_first_present_skip(candidates, candidates.len() as int);
    assert(candidates.skip(candidates.len() as int).len() == 0);
}

/// The two words that mark a temperature.
struct Keywords {
    long: Vec<char>,
    short: Vec<char>,
}

impl Keywords {
    spec fn wf(&self) -> bool {
        self.long@ == "temperature"@ && self.short@ == "temp"@
    }

    fn new() -> (r: Keywords)
        ensures
            r.wf(),
    {
        Keywords { long: chars_of("temperature"), short: chars_of("temp") }
    }

    fn mentioned_in(&self, s: &Vec<char>) -> (r: bool)
        requires
            self.wf(),
        ensures
            r == mentions_temperature(s@),
    {
        contains_folded(s, &self.long) || contains_folded(s, &self.short)
    }
}

fn sentinel_vendor() -> (r: String)
    ensures
        r@ == unknown_vendor(),
{
    "Unknown Vendor".to_owned()
}

fn sentinel_model() -> (r: String)
    ensures
        r@ == unknown_model(),
{
    "Unknown Model".to_owned()
}

/// The vendor that a family name gives.
fn vendor_in_family(family: &String) -> (r: String)
    ensures
        r@ == family_vendor(family@),
{
    let parts = split_tokens(&chars_of(family.as_str()));
    if parts.len() > 0 {
        assert(char_views(parts@)[0] == parts@[0]@);
        string_of(&parts[0])
    } else {
        sentinel_vendor()
    }
}

/// The model that a family name gives, where it gives one.
fn model_in_family(family: &String) -> (r: Option<String>)
    ensures
        text_view(r) == family_model(family@),
{
    let mut parts = split_tokens(&chars_of(family.as_str()));
    if parts.len() > 1 {
        let ghost all = char_views(parts@);
        parts.remove(0);
        proof {
            assert(char_views(parts@) =~= all.skip(1));
        }
        Some(string_of(&join(&parts)))
    } else {
        None
    }
}

fn resolve_vendor(document: &Document) -> (r: String)
    ensures
        r@ == vendor_of(document@),
{
    let ghost sources = vendor_sources(document@);
    if let Some(family) = &document.model_family {
        proof {
            lemma_first_present_at(sources, 0);
        }
        return vendor_in_family(family);
    }
    if let Some(vendor) = &document.vendor {
        proof {
            lemma_first_present_at(sources, 1);
        }
        return vendor.clone();
    }
    if let Some(vendor) = &document.scsi_vendor {
        proof {
            lemma_first_present_at(sources, 2);
        }
        return vendor.clone();
    }
    proof {
        lemma_first_present_none(sources);
    }
    sentinel_vendor()
}

fn resolve_model(document: &Document) -> (r: String)
    ensures
        r@ == model_of(document@),
{
    let ghost sources = model_sources(document@);
    if let Some(model) = &document.model_name {
        proof {
            lemma_first_present_at(sources, 0);
        }
        return model.clone();
    }
    if let Some(model) = &document.product {
        proof {
            lemma_first_present_at(sources, 1);
        }
        return model.clone();
    }
    if let Some(model) = &document.scsi_product {
        proof {
            lemma_first_present_at(sources, 2);
        }
        return model.clone();
    }
    if let Some(model) = &document.scsi_model_name {
        proof {
            lemma_first_present_at(sources, 3);
        }
        return model.clone();
    }
    if let Some(family) = &document.model_family {
        if let Some(model) = model_in_family(family) {
            proof {
                lemma_first_present_at(sources, 4);
            }
            return model;
        }
    }
    proof {
        lemma_first_present_none(sources);
    }
    sentinel_model()
}

fn resolve_attribute(attribute: &Attribute, keywords: &Keywords) -> (r: Option<i64>)
    requires
        keywords.wf(),
    ensures
        r == attribute_temperature(attribute@),
{
    match &attribute.name {
        Some(name) => {
            if keywords.mentioned_in(&chars_of(name.as_str())) {
                let ghost values = seq![attribute.raw_value, attribute.value];
                if attribute.raw_value.is_some() {
                    proof {
                        lemma_first_present_at(values, 0);
                    }
                    return attribute.raw_value;
                }
                proof {
                    if attribute.value is Some {
                        lemma_first_present_at(values, 1);
                    } else {
                        lemma_first_present_none(values);
                    }
                }
                attribute.value
            } else {
                None
            }
        },
        None => None,
    }
}

fn resolve_table(table: &Vec<Attribute>) -> (r: Option<i64>)
    ensures
        r == table_temperature(attribute_views(table@)),
{
    let keywords = Keywords::new();
    let ghost candidates = attribute_views(table@).map_values(
        |attribute: AttributeView| attribute_temperature(attribute),
    );
    let mut i: usize = 0;
    while i < table.len()
        invariant
            i <= table.len(),
            keywords.wf(),
            candidates == attribute_views(table@).map_values(
                |attribute: AttributeView| attribute_temperature(attribute),
            ),
            forall|k: int| 0 <= k < i ==> candidates[k] is None,
        decreases table.len() - i,
    {
        let found = resolve_attribute(&table[i], &keywords);
        assert(candidates[i as int] == attribute_temperature(table@[i as int]@));
        if found.is_some() {
            proof {
                lemma_first_present_at(candidates, i as int);
            }
            return found;
        }
        i += 1;
    }
    proof {
        lemma_first_present_none(candidates);
    }
    None
}

fn resolve_temperature(document: &Document) -> (r: Option<i64>)
    ensures
        r == temperature_of(document@),
{
    let ghost sources = temperature_sources(document@);
    if document.temperature_current.is_some() {
        proof {
            lemma_first_present_at(sources, 0);
        }
        return document.temperature_current;
    }
    if document.temperature.is_some() {
        proof {
            lemma_first_present_at(sources, 1);
        }
        return document.temperature;
    }
    if document.nvme_temperature.is_some() {
        proof {
            lemma_first_present_at(sources, 2);
        }
        return document.nvme_temperature;
    }
    let from_table = match &document.attributes {
        Some(table) => resolve_table(table),
        None => None,
    };
    if from_table.is_some() {
        proof {
            lemma_first_present_at(sources, 3);
        }
        return from_table;
    }
    proof {
        if document.sata_temperature is Some {
            lemma_first_present_at(sources, 4);
        } else {
            lemma_first_present_none(sources);
        }
    }
    document.sata_temperature
}

impl Document {
    /// Resolves vendor, model and temperature. A document without any of the
    /// fields gives the two unknown names and no temperature: that is a
    /// result, not a failure.
    pub fn extract(&self) -> (r: Extraction)
        ensures
            r@ == extraction_of(self@),
    {
        Extraction {
            vendor: resolve_vendor(self),
            model: resolve_model(self),
            temperature: resolve_temperature(self),
        }
    }
}

/// The temperature that a token stands for.
fn token_temperature(token: &Vec<char>) -> (r: Option<i64>)
    ensures
        r == qualifying_temperature(token@),
{
    if token.len() == 0 {
        return None;
    }
    let first = token[0];
    if first == '-' {
        proof {
            if token@.skip(1).len() > 0 && all_digits(token@.skip(1)) {
                lemma_digits_value_bounds(token@.skip(1));
            }
        }
        return None;
    }
    let start: usize = if first == '+' {
        1
    } else {
        0
    };
    if start == token.len() {
        return None;
    }
    let ghost digits = token@.skip(start as int);
    let mut value: i64 = 0;
    let mut i: usize = start;
    while i < token.len()
        invariant
            start <= i <= token.len(),
            token@[0] != '-',
            start == (if token@[0] == '+' { 1usize } else { 0usize }),
            digits == token@.skip(start as int),
            all_digits(digits.take(i - start)),
            0 <= value <= 150,
            value < 150 ==> value == digits_value(digits.take(i - start)),
            value == 150 ==> digits_value(digits.take(i - start)) >= 150,
        decreases token.len() - i,
    {
        let u: u32 = token[i] as u32;
        if u < 0x30 || u > 0x39 {
            proof {
                assert(digits[i - start] == token@[i as int]);
                assert(!is_digit(digits[i - start]));
                if start == 0 {
                    assert(digits =~= token@);
                }
            }
            return None;
        }
        proof {
            let read = digits.take(i - start);
            let next = digits.take(i + 1 - start);
            assert(next.drop_last() =~= read);
            assert(next.last() == token@[i as int]);
            assert forall|k: int| 0 <= k < next.len() implies is_digit(#[trigger] next[k]) by {
                if k < read.len() {
                    assert(next[k] == read[k]);
                }
            }
            lemma_digits_value_bounds(next);
        }
        if value < 150 {
            let next: i64 = value * 10 + (u - 0x30) as i64;
            value = if next >= 150 {
                150
            } else {
                next
            };
        }
        i += 1;
    }
    proof {
        assert(digits.take(token.len() - start) =~= digits);
        if start == 0 {
            assert(digits =~= token@);
        }
    }
    if 0 < value && value < 150 {
        Some(value)
    } else {
        None
    }
}

/// The temperature that a line of text gives.
fn scan_line(line: &Vec<char>, keywords: &Keywords) -> (r: Option<i64>)
    requires
        keywords.wf(),
    ensures
        r == line_temperature(line@),
{
    if !keywords.mentioned_in(line) {
        return None;
    }
    let parts = split_tokens(line);
    let ghost candidates = tokens(line@).map_values(
        |token: Seq<char>| qualifying_temperature(token),
    );
    let mut i: usize = 0;
    while i < parts.len()
        invariant
            i <= parts.len(),
            mentions_temperature(line@),
            char_views(parts@) == tokens(line@),
            candidates == tokens(line@).map_values(
                |token: Seq<char>| qualifying_temperature(token),
            ),
            forall|k: int| 0 <= k < i ==> candidates[k] is None,
        decreases parts.len() - i,
    {
        let found = token_temperature(&parts[i]);
        assert(char_views(parts@)[i as int] == parts@[i as int]@);
        if found.is_some() {
            proof {
                lemma_first_present_at(candidates, i as int);
            }
            return found;
        }
        i += 1;
    }
    proof {
        lemma_first_present_none(candidates);
    }
    None
}

/// Scans a text for a temperature: on the first line that speaks of a
/// temperature and holds a token that is an integer strictly between 0 and
/// 150, that token's value.
pub fn extract_temperature_from_text(output: &str) -> (r: Option<i64>)
    ensures
        r == text_temperature(output@),
{
    let keywords = Keywords::new();
    let all = split_lines(&chars_of(output));
    let ghost candidates = lines(output@).map_values(|line: Seq<char>| line_temperature(line));
    let mut i: usize = 0;
    while i < all.len()
        invariant
            i <= all.len(),
            keywords.wf(),
            char_views(all@) == lines(output@),
            candidates == lines(output@).map_values(|line: Seq<char>| line_temperature(line)),
            forall|k: int| 0 <= k < i ==> candidates[k] is None,
        decreases all.len() - i,
    {
        let found = scan_line(&all[i], &keywords);
        assert(char_views(all@)[i as int] == all@[i as int]@);
        if found.is_some() {
            proof {
                lemma_first_present_at(candidates, i as int);
            }
            return found;
        }
        i += 1;
    }
    proof {
        lemma_first_present_none(candidates);
    }
    None
}

impl RawDiagnosticDocument {
    /// Decodes the raw output of one run: as a structured document where it
    /// parses as a JSON object, as text otherwise.
    pub fn decode(raw: &[u8]) -> (r: RawDiagnosticDocument)
        ensures
            r@ == raw_document_of(raw@),
    {
        if raw.len() == 0 {
            return RawDiagnosticDocument::Text(String::new());
        }
        let text = decode_lossy(raw);
        match parse_json(text.as_str()) {
            Some(json) => if json.is_object() {
                RawDiagnosticDocument::Structured(read_document(&json))
            } else {
                RawDiagnosticDocument::Text(text)
            },
            None => RawDiagnosticDocument::Text(text),
        }
    }

    /// Extracts vendor, model and temperature. A structured document always
    /// gives a result. Text gives one, with unknown vendor and model, exactly
    /// when a temperature is found in it.
    pub fn extract(&self) -> (r: Result<Extraction, Unusable>)
        ensures
            outcome_view(r) == raw_extraction(self@),
    {
        match self {
            RawDiagnosticDocument::Structured(document) => Ok(document.extract()),
            RawDiagnosticDocument::Text(text) => match extract_temperature_from_text(
                text.as_str(),
            ) {
                Some(temperature) => Ok(
                    Extraction {
                        vendor: sentinel_vendor(),
                        model: sentinel_model(),
                        temperature: Some(temperature),
                    },
                ),
                None => Err(Unusable),
            },
        }
    }
}

/// Extracts vendor, model and temperature from the raw output of one run of
/// the diagnostics utility.
pub fn parse_smartctl_output(raw: &[u8]) -> (r: Result<Extraction, Unusable>)
    ensures
        outcome_view(r) == extraction_of_output(raw@),
{
    RawDiagnosticDocument::decode(raw).extract()
}

/// A document with a nested current temperature reports that value as it is,
/// whatever else the document holds.
pub proof fn current_temperature_is_reported(document: DocumentView)
    requires
        document.temperature_current is Some,
    ensures
        extraction_of(document).temperature == document.temperature_current,
        raw_extraction(RawDiagnosticDocumentView::Structured(document)) matches Ok(extraction)
            && extraction.temperature == document.temperature_current,
{
    lemma_first_present_at(temperature_sources(document), 0);
}

/// A JSON value with an integer under "temperature", "current" stands for a
/// document that reports that integer as its temperature.
pub proof fn json_current_temperature_is_reported(json: Json, degrees: i64)
    requires
        json.member("temperature"@).member("current"@) == Json::Number(Some(degrees as int)),
    ensures
        extraction_of(document_of(json)).temperature == Some(degrees),
{
    current_temperature_is_reported(document_of(json));
}

/// A document with a family name and no model field reports the first token
/// of the family name as its vendor and the rest of the tokens, joined by
/// single spaces, as its model. The vendor is then a word: not empty, and
/// without whitespace. A family name without a token gives the unknown
/// vendor, and one without a token after the first the unknown model.
pub proof fn family_name_gives_vendor_and_model(document: DocumentView)
    requires
        document.model_family is Some,
        document.model_name is None,
        document.product is None,
        document.scsi_product is None,
        document.scsi_model_name is None,
    ensures
        ({
            let parts = tokens(document.model_family->0);
            let extraction = extraction_of(document);
            &&& parts.len() > 0 ==> {
                &&& extraction.vendor == parts[0]
                &&& extraction.vendor.len() > 0
                &&& forall|k: int|
                    0 <= k < extraction.vendor.len() ==> !is_whitespace(
                        #[trigger] extraction.vendor[k],
                    )
            }
            &&& parts.len() == 0 ==> extraction.vendor == unknown_vendor()
            &&& parts.len() > 1 ==> extraction.model == join_with_spaces(parts.skip(1))
            &&& parts.len() <= 1 ==> extraction.model == unknown_model()
        }),
{
    lemma_first_present_at(vendor_sources(document), 0);
    if tokens(document.model_family->0).len() > 1 {
        lemma_first_present_at(model_sources(document), 4);
    } else {
        lemma_first_present_none(model_sources(document));
    }
    lemma_tokens_shape(document.model_family->0);
}

/// A document without any of the fields reports the unknown vendor, the
/// unknown model and no temperature.
pub proof fn empty_document_is_uninformative()
    ensures
        extraction_of(empty_document()) == (ExtractionView {
            vendor: unknown_vendor(),
            model: unknown_model(),
            temperature: None,
        }),
{
    lemma_first_present_none(vendor_sources(empty_document()));
    lemma_first_present_none(model_sources(empty_document()));
    lemma_first_present_none(temperature_sources(empty_document()));
}

/// A structured document is always usable, whatever it holds. Output is
/// unusable exactly when it is no structured document and its text gives no
/// temperature.
pub proof fn unusable_is_text_without_temperature(raw: RawDiagnosticDocumentView)
    ensures
        raw is Structured ==> raw_extraction(raw) is Ok,
        raw_extraction(raw) is Err <==> raw is Text && text_temperature(raw->Text_0) is None,
{
}

/// A name that is "Temperature_Celsius", in any case, speaks of a
/// temperature.
pub proof fn temperature_celsius_mentions_temperature(name: Seq<char>)
    requires
        equal_ignoring_case(name, "Temperature_Celsius"@),
    ensures
        mentions_temperature(name),
{
    reveal_strlit("Temperature_Celsius");
    reveal_strlit("temperature");
    let word = "Temperature_Celsius"@;
    let key = "temperature"@;
    assert forall|k: int| 0 <= k < key.len() implies folded(name[0 + k]) == folded(
        #[trigger] key[k],
    ) by {
        assert(folded(name[k]) == folded(word[k]));
    }
    assert(matches_at(name, 0, key));
}

/// Where the three sources before the attribute table are absent, the
/// temperature is the raw value of the first attribute that gives a
/// temperature: of an attribute whose name speaks of a temperature, before
/// which no attribute gives one.
pub proof fn attribute_raw_value_is_reported(document: DocumentView, i: int, raw: i64)
    requires
        document.temperature_current is None,
        document.temperature is None,
        document.nvme_temperature is None,
        document.attributes is Some,
        0 <= i < document.attributes->0.len(),
        document.attributes->0[i].name is Some,
        mentions_temperature(document.attributes->0[i].name->0),
        document.attributes->0[i].raw_value == Some(raw),
        forall|k: int| 0 <= k < i ==> attribute_temperature(document.attributes->0[k]) is None,
    ensures
        extraction_of(document).temperature == Some(raw),
{
    let table = document.attributes->0;
    let candidates = table.map_values(|attribute: AttributeView| attribute_temperature(attribute));
    lemma_first_present_at(seq![table[i].raw_value, table[i].value], 0);
    assert(candidates[i] == Some(raw));
    lemma_first_present_at(candidates, i);
    lemma_first_present_at(temperature_sources(document), 3);
}

/// Extraction is a function of the raw bytes: two extractions from the same
/// bytes give the same result.
pub proof fn extraction_is_repeatable(
    raw: Seq<u8>,
    first: Result<Extraction, Unusable>,
    second: Result<Extraction, Unusable>,
)
    requires
        outcome_view(first) == extraction_of_output(raw),
        outcome_view(second) == extraction_of_output(raw),
    ensures
        outcome_view(first) == outcome_view(second),
{
}

/// Empty output is unusable.
pub proof fn empty_output_is_unusable(raw: Seq<u8>)
    requires
        raw.len() == 0,
    ensures
        extraction_of_output(raw) == Err::<ExtractionView, Unusable>(Unusable),
{
    let candidates = lines(Seq::<char>::empty()).map_values(
        |line: Seq<char>| line_temperature(line),
    );
    assert(candidates.len() == 0);
}

} // verus!
