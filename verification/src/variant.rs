//! The variants that pixmaps, tooltips, menu properties and layouts travel in.

use std::collections::HashMap;

use vstd::prelude::*;
use zbus::zvariant::{StructureBuilder, Value};

verus! {

/// What a variant holds, as far as trays use it.
pub enum VariantModel {
    U8(u8),
    Bool(bool),
    I32(i32),
    Str(Seq<char>),
    /// A variant inside a variant.
    Variant(Box<VariantModel>),
    /// A dictionary from texts.
    Dict(Map<Seq<char>, VariantModel>),
    Array(Seq<VariantModel>),
    Structure(Seq<VariantModel>),
}

/// `zbus::zvariant::Value`, which is opaque here: `variant_of` names what a value holds.
#[verifier::external_type_specification]
#[verifier::external_body]
pub struct ExValue<'a>(zbus::zvariant::Value<'a>);

/// What a variant holds. It is said of the values that the functions below make, and of no
/// others.
pub uninterp spec fn variant_of(v: Value<'static>) -> VariantModel;

/// What the variants hold, in order.
pub open spec fn variants_of(values: Seq<Value<'static>>) -> Seq<VariantModel> {
    values.map_values(|v: Value<'static>| variant_of(v))
}

/// The dictionary that the entries make; of two entries with one key the later one counts.
pub open spec fn dictionary_of(entries: Seq<(String, Value<'static>)>) -> Map<
    Seq<char>,
    VariantModel,
>
    decreases entries.len(),
{
    if entries.len() == 0 {
        Map::empty()
    } else {
        dictionary_of(entries.drop_last()).insert(entries.last().0@, variant_of(entries.last().1))
    }
}

/// Whether no two of the entries have one key.
pub open spec fn distinct_keys(entries: Seq<(String, Value<'static>)>) -> bool {
    forall|i: int, j: int|
        0 <= i < j < entries.len() ==> (#[trigger] entries[i]).0@ != (#[trigger] entries[j]).0@
}

/// The structure that one node of a menu layout travels as: its id, its properties and its
/// children.
pub open spec fn layout_variant(
    id: i32,
    properties: Map<Seq<char>, VariantModel>,
    children: Seq<VariantModel>,
) -> VariantModel {
    VariantModel::Structure(
        seq![
            VariantModel::I32(id),
            VariantModel::Dict(
                properties.map_values(|v: VariantModel| VariantModel::Variant(Box::new(v))),
            ),
            VariantModel::Array(
                children.map_values(|v: VariantModel| VariantModel::Variant(Box::new(v))),
            ),
        ],
    )
}

/// The structure that a pixmap travels as: its width, its height and its bytes.
pub open spec fn pixmap_variant(width: i32, height: i32, bytes: Seq<u8>) -> VariantModel {
    VariantModel::Structure(
        seq![
            VariantModel::I32(width),
            VariantModel::I32(height),
            VariantModel::Array(bytes.map_values(|b: u8| VariantModel::U8(b))),
        ],
    )
}

/// The structure that a tooltip travels as.
pub open spec fn tool_tip_variant(
    icon_name: Seq<char>,
    pixmaps: Seq<VariantModel>,
    title: Seq<char>,
    description: Seq<char>,
) -> VariantModel {
    VariantModel::Structure(
        seq![
            VariantModel::Str(icon_name),
            VariantModel::Array(pixmaps),
            VariantModel::Str(title),
            VariantModel::Str(description),
        ],
    )
}

/// `From<bool>` of `zbus::zvariant::Value`: the variant holds the boolean.
#[verifier::external_body]
pub(crate) fn bool_value(b: bool) -> (v: Value<'static>)
    ensures
        variant_of(v) == VariantModel::Bool(b),
{
    Value::from(b)
}

/// `From<i32>` of `zbus::zvariant::Value`: the variant holds the number.
#[verifier::external_body]
pub(crate) fn i32_value(n: i32) -> (v: Value<'static>)
    ensures
        variant_of(v) == VariantModel::I32(n),
{
    Value::from(n)
}

/// `From<&str>` of `zbus::zvariant::Value`: the variant holds the text.
#[verifier::external_body]
pub(crate) fn str_value(s: &'static str) -> (v: Value<'static>)
    ensures
        variant_of(v) == VariantModel::Str(s@),
{
    Value::from(s)
}

/// `From<String>` of `zbus::zvariant::Value`: the variant holds the text.
#[verifier::external_body]
pub(crate) fn string_value(s: String) -> (v: Value<'static>)
    ensures
        variant_of(v) == VariantModel::Str(s@),
{
    Value::from(s)
}

/// `zbus::zvariant::StructureBuilder` with `add_field` for each of the three arguments, and
/// `From<Structure>` of `zbus::zvariant::Value`: the variant holds the structure of an integer,
/// a dictionary from texts to variants and an array of variants, each of which stands in its
/// dictionary or array as a variant inside a variant. `build` fails for a structure without
/// fields only.
#[verifier::external_body]
pub(crate) fn layout_value(
    id: i32,
    properties: Vec<(String, Value<'static>)>,
    children: Vec<Value<'static>>,
) -> (v: Value<'static>)
    requires
        distinct_keys(properties@),
    ensures
        variant_of(v) == layout_variant(
            id,
            dictionary_of(properties@),
            variants_of(children@),
        ),
{
    let properties: HashMap<String, Value<'static>> = properties.into_iter().collect();
    let structure = StructureBuilder::new()
        .add_field(id)
        .add_field(properties)
        .add_field(children)
        .build()
        .expect("a structure with fields");
    Value::from(structure)
}

/// `zbus::zvariant::StructureBuilder` with `add_field` for each of the three arguments, and
/// `From<Structure>` of `zbus::zvariant::Value`: the variant holds the structure of two integers
/// and an array of bytes. `build` fails for a structure without fields only.
#[verifier::external_body]
pub(crate) fn pixmap_value(width: i32, height: i32, bytes: Vec<u8>) -> (v: Value<'static>)
    ensures
        variant_of(v) == pixmap_variant(width, height, bytes@),
{
    let structure = StructureBuilder::new()
        .add_field(width)
        .add_field(height)
        .add_field(bytes)
        .build()
        .expect("a structure with fields");
    Value::from(structure)
}

/// `zbus::zvariant::StructureBuilder` with `add_field` for each of the four arguments, and
/// `From<Structure>` of `zbus::zvariant::Value`: the variant holds the structure of a text, an
/// array of structures, each made from a tuple of two integers and an array of bytes, and two
/// more texts. `build` fails for a structure without fields only.
#[verifier::external_body]
pub(crate) fn tool_tip_value(
    icon_name: String,
    pixmaps: Vec<(i32, i32, Vec<u8>)>,
    title: String,
    description: String,
) -> (v: Value<'static>)
    ensures
        variant_of(v) == tool_tip_variant(
            icon_name@,
            pixmaps@.map_values(|p: (i32, i32, Vec<u8>)| pixmap_variant(p.0, p.1, p.2@)),
            title@,
            description@,
        ),
{
    let structure = StructureBuilder::new()
        .add_field(icon_name)
        .add_field(pixmaps)
        .add_field(title)
        .add_field(description)
        .build()
        .expect("a structure with fields");
    Value::from(structure)
}

} // verus!
