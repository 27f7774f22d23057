//! The diagnostic document: the fields of a structured diagnostics report
//! that the extraction reads, as plain values.
use crate::json::{json_of, json_of_each, member, Json};
use serde_json::Value;
use vstd::prelude::*;

verus! {

/// One entry of the table of named attributes.
#[derive(Clone, Debug, PartialEq, Eq)]
pub struct Attribute {
    /// The attribute's name, where the entry has one.
    pub name: Option<String>,
    /// The attribute's raw value, where it is an integer.
    pub raw_value: Option<i64>,
    /// The attribute's plain value, where it is an integer.
    pub value: Option<i64>,
}

/// The view of an `Attribute`.
pub struct AttributeView {
    pub name: Option<Seq<char>>,
    pub raw_value: Option<i64>,
    pub value: Option<i64>,
}

/// A structured diagnostics report. Each field is `None` where the report has
/// no such field, or has one of another type.
#[derive(Clone, Debug, PartialEq, Eq)]
pub struct Document {
    /// The family or series name, conventionally "<Vendor> <Series>".
    pub model_family: Option<String>,
    pub vendor: Option<String>,
    pub scsi_vendor: Option<String>,
    pub model_name: Option<String>,
    pub product: Option<String>,
    pub scsi_product: Option<String>,
    pub scsi_model_name: Option<String>,
    /// The nested current temperature.
    pub temperature_current: Option<i64>,
    /// The flat temperature.
    pub temperature: Option<i64>,
    /// The temperature of the NVMe health log.
    pub nvme_temperature: Option<i64>,
    /// The table of named attributes.
    pub attributes: Option<Vec<Attribute>>,
    /// The flat SATA temperature.
    pub sata_temperature: Option<i64>,
}

/// The view of a `Document`.
pub struct DocumentView {
    pub model_family: Option<Seq<char>>,
    pub vendor: Option<Seq<char>>,
    pub scsi_vendor: Option<Seq<char>>,
    pub model_name: Option<Seq<char>>,
    pub product: Option<Seq<char>>,
    pub scsi_product: Option<Seq<char>>,
    pub scsi_model_name: Option<Seq<char>>,
    pub temperature_current: Option<i64>,
    pub temperature: Option<i64>,
    pub nvme_temperature: Option<i64>,
    pub attributes: Option<Seq<AttributeView>>,
    pub sata_temperature: Option<i64>,
}

/// The view of an optional string.
pub open spec fn text_view(text: Option<String>) -> Option<Seq<char>> {
    match text {
        Some(s) => Some(s@),
        None => None,
    }
}

/// The views of a table of attributes.
pub open spec fn attribute_views(table: Seq<Attribute>) -> Seq<AttributeView> {
    Seq::new(table.len(), |i: int| table[i]@)
}

impl View for Attribute {
    type V = AttributeView;

    open spec fn view(&self) -> AttributeView {
        AttributeView {
            name: text_view(self.name),
            raw_value: self.raw_value,
            value: self.value,
        }
    }
}

impl View for Document {
    type V = DocumentView;

    open spec fn view(&self) -> DocumentView {
        DocumentView {
            model_family: text_view(self.model_family),
            vendor: text_view(self.vendor),
            scsi_vendor: text_view(self.scsi_vendor),
            model_name: text_view(self.model_name),
            product: text_view(self.product),
            scsi_product: text_view(self.scsi_product),
            scsi_model_name: text_view(self.scsi_model_name),
            temperature_current: self.temperature_current,
            temperature: self.temperature,
            nvme_temperature: self.nvme_temperature,
            attributes: match self.attributes {
                Some(table) => Some(attribute_views(table@)),
                None => None,
            },
            sata_temperature: self.sata_temperature,
        }
    }
}

/// The document without any field.
pub open spec fn empty_document() -> DocumentView {
    DocumentView {
        model_family: None,
        vendor: None,
        scsi_vendor: None,
        model_name: None,
        product: None,
        scsi_product: None,
        scsi_model_name: None,
        temperature_current: None,
        temperature: None,
        nvme_temperature: None,
        attributes: None,
        sata_temperature: None,
    }
}

/// The attribute that an item of the JSON attribute table stands for.
pub open spec fn attribute_of(item: Json) -> AttributeView {
    AttributeView {
        name: item.member("name"@).text(),
        raw_value: item.member("raw"@).member("value"@).integer(),
        value: item.member("value"@).integer(),
    }
}

/// The document that a JSON value stands for: its fields are read under
/// their names, and a field of another type than expected counts as absent.
pub open spec fn document_of(json: Json) -> DocumentView {
    DocumentView {
        model_family: json.member("model_family"@).text(),
        vendor: json.member("vendor"@).text(),
        scsi_vendor: json.member("scsi_vendor"@).text(),
        model_name: json.member("model_name"@).text(),
        product: json.member("product"@).text(),
        scsi_product: json.member("scsi_product"@).text(),
        scsi_model_name: json.member("scsi_model_name"@).text(),
        temperature_current: json.member("temperature"@).member("current"@).integer(),
        temperature: json.member("temperature"@).integer(),
        nvme_temperature: json.member("nvme_smart_health_information_log"@).member(
            "temperature"@,
        ).integer(),
        attributes: match json.member("ata_smart_attributes"@).member("table"@).items() {
            Some(items) => Some(items.map_values(|item: Json| attribute_of(item))),
            None => None,
        },
        sata_temperature: json.member("sata_temperature"@).integer(),
    }
}

impl Document {
    /// The document without any field.
    pub fn empty() -> (r: Document)
        ensures
            r@ == empty_document(),
    {
        Document {
            model_family: None,
            vendor: None,
            scsi_vendor: None,
            model_name: None,
            product: None,
            scsi_product: None,
            scsi_model_name: None,
            temperature_current: None,
            temperature: None,
            nvme_temperature: None,
            attributes: None,
            sata_temperature: None,
        }
    }
}

/// The string under `key`, where `json` has one there.
fn text_at(json: &Value, key: &str) -> (r: Option<String>)
    ensures
        text_view(r) == json_of(*json).member(key@).text(),
{
    match member(json, key).as_str() {
        Some(s) => Some(s.to_owned()),
        None => None,
    }
}

/// The attribute that an item of the JSON attribute table stands for.
fn read_attribute(item: &Value) -> (r: Attribute)
    ensures
        r@ == attribute_of(json_of(*item)),
{
    Attribute {
        name: text_at(item, "name"),
        raw_value: member(member(item, "raw"), "value").as_i64(),
        value: member(item, "value").as_i64(),
    }
}

/// The attribute table of `json`, where it has one.
fn read_attributes(json: &Value) -> (r: Option<Vec<Attribute>>)
    ensures
        match json_of(*json).member("ata_smart_attributes"@).member("table"@).items() {
            Some(items) => r is Some && attribute_views(r->0@) == items.map_values(
                |item: Json| attribute_of(item),
            ),
            None => r is None,
        },
{
    match member(member(json, "ata_smart_attributes"), "table").as_array() {
        Some(items) => {
            let mut table: Vec<Attribute> = Vec::new();
            let mut i: usize = 0;
            while i < items.len()
                invariant
                    i <= items.len(),
                    table.len() == i,
                    forall|k: int|
                        0 <= k < i ==> (#[trigger] table@[k])@ == attribute_of(json_of(items@[k])),
                decreases items.len() - i,
            {
                table.push(read_attribute(&items[i]));
                i += 1;
            }
            proof {
                assert(attribute_views(table@) =~= json_of_each(items@).map_values(
                    |item: Json| attribute_of(item),
                ));
            }
            Some(table)
        },
        None => None,
    }
}

/// Reads from a JSON value the fields that the extraction looks at.
pub fn read_document(json: &Value) -> (r: Document)
    ensures
        r@ == document_of(json_of(*json)),
{
    Document {
        model_family: text_at(json, "model_family"),
        vendor: text_at(json, "vendor"),
        scsi_vendor: text_at(json, "scsi_vendor"),
        model_name: text_at(json, "model_name"),
        product: text_at(json, "product"),
        scsi_product: text_at(json, "scsi_product"),
        scsi_model_name: text_at(json, "scsi_model_name"),
        temperature_current: member(member(json, "temperature"), "current").as_i64(),
        temperature: member(json, "temperature").as_i64(),
        nvme_temperature: member(
            member(json, "nvme_smart_health_information_log"),
            "temperature",
        ).as_i64(),
        attributes: read_attributes(json),
        sata_temperature: member(json, "sata_temperature").as_i64(),
    }
}

} // verus!
