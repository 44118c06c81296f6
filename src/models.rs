use vstd::prelude::*;

use crate::api;
use crate::model_key::{joined_key, ModelKey};
use crate::text::{concat2, concat3};

verus! {

pub enum ModelFormat {
    GGUF,
    SafeTensors,
}

pub struct ModelDetails {
    pub parent_model: String,
    pub format: String,
    pub family: String,
    pub families: Vec<String>,
    pub parameter_size: String,
    pub quantization_level: String,
}

pub struct LayerInfo {
    pub media_type: String,
    pub digest: String,
    pub size: u64,
}

pub struct ModelManifest {
    pub schema_version: u32,
    pub media_type: String,
    pub config: LayerInfo,
    pub layers: Vec<LayerInfo>,
}

/// The UTC date and time `secs` seconds after the Unix epoch, written
/// `%Y-%m-%d %H:%M:%S`.
pub uninterp spec fn utc_text_of(secs: i64) -> Seq<char>;

/// Relies on chrono's `DateTime::<Utc>::from_timestamp` and `format`: the text
/// depends on `secs` alone (a time chrono cannot represent reads as the epoch).
#[verifier::external_body]
fn utc_text(secs: i64) -> (r: String)
    ensures
        r@ == utc_text_of(secs),
{
    chrono::DateTime::<chrono::Utc>::from_timestamp(secs, 0)
        .unwrap_or_default()
        .format("%Y-%m-%d %H:%M:%S")
        .to_string()
}

/// A catalog entry. Times are seconds since the Unix epoch, UTC.
#[derive(Debug)]
pub struct ModelMetadata {
    pub name: String,
    pub tag: String,
    pub size: u64,
    pub digest: String,
    pub format: String,
    pub family: String,
    pub parameter_size: String,
    pub quantization_level: String,
    pub created_at: i64,
    pub modified_at: i64,
    pub path: String,
}

impl Clone for ModelMetadata {
    fn clone(&self) -> (r: Self)
        ensures
            r == *self,
    {
        ModelMetadata {
            name: self.name.clone(),
            tag: self.tag.clone(),
            size: self.size,
            digest: self.digest.clone(),
            format: self.format.clone(),
            family: self.family.clone(),
            parameter_size: self.parameter_size.clone(),
            quantization_level: self.quantization_level.clone(),
            created_at: self.created_at,
            modified_at: self.modified_at,
            path: self.path.clone(),
        }
    }
}

impl ModelMetadata {
    /// The catalog key of the entry, `name:tag`.
    pub fn catalog_key(&self) -> (r: String)
        ensures
            r@ == joined_key((self.name@, self.tag@)),
    {
        let key = ModelKey { name: self.name.clone(), tag: self.tag.clone() };
        key.joined()
    }

    /// When the entry was created, as listings print it.
    pub fn created_text(&self) -> (r: String)
        ensures
            r@ == utc_text_of(self.created_at),
    {
        utc_text(self.created_at)
    }

    /// When the entry was last modified, as listings print it.
    pub fn modified_text(&self) -> (r: String)
        ensures
            r@ == utc_text_of(self.modified_at),
    {
        utc_text(self.modified_at)
    }

    /// What a model listing shows of the entry.
    pub fn details(&self) -> (r: api::ModelDetails)
        ensures
            r.format == self.format,
            r.family == self.family,
            r.parameter_size == self.parameter_size,
            r.quantization_level == self.quantization_level,
    {
        api::ModelDetails {
            format: self.format.clone(),
            family: self.family.clone(),
            parameter_size: self.parameter_size.clone(),
            quantization_level: self.quantization_level.clone(),
        }
    }

    /// The entry recorded for a model pulled under `key` into `path`:
    /// a GGUF file of the family `key.name`, quantised Q4_K_M, with the tag
    /// as its parameter size.
    pub fn pulled(key: &ModelKey, size: u64, digest_id: &str, path: String, now: i64) -> (r: ModelMetadata)
        ensures
            r.name@ == key.name@,
            r.tag@ == key.tag@,
            r.size == size,
            r.digest@ == "sha256:"@ + digest_id@,
            r.format@ == "gguf"@,
            r.family@ == key.name@,
            r.parameter_size@ == key.tag@,
            r.quantization_level@ == "Q4_K_M"@,
            r.created_at == now,
            r.modified_at == now,
            r.path == path,
    {
        ModelMetadata {
            name: key.name.clone(),
            tag: key.tag.clone(),
            size,
            digest: concat2("sha256:", digest_id),
            format: String::from_str("gguf"),
            family: key.name.clone(),
            parameter_size: key.tag.clone(),
            quantization_level: String::from_str("Q4_K_M"),
            created_at: now,
            modified_at: now,
            path,
        }
    }
}

/// The file name a pulled model is stored under: `<name>_<tag>.gguf`.
pub fn model_file_name(key: &ModelKey) -> (r: String)
    ensures
        r@ == key.name@ + "_"@ + key.tag@ + ".gguf"@,
{
    let mut s = concat3(key.name.as_str(), "_", key.tag.as_str());
    s.append(".gguf");
    s
}

} // verus!
