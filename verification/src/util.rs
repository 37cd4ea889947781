//! The properties of a registry entry that tell what kind of input device it
//! is.

use crate::registry::{Property, PropertyView};
use crate::text::{chars_are, chars_begin_with, chars_of};
use crate::types::capability_of_property;
use vstd::prelude::*;

verus! {

/// Whether a property names a kind of input device and is set: its name
/// begins with `ID_INPUT`, is not one of the two that give the device's size
/// in millimetres, and its value is not `0`.
pub open spec fn is_input_id(property: PropertyView) -> bool {
    &&& property.name is Some
    &&& "ID_INPUT"@.is_prefix_of(property.name->0)
    &&& property.name->0 != "ID_INPUT_HEIGHT_MM"@
    &&& property.name->0 != "ID_INPUT_WIDTH_MM"@
    &&& property.value is Some
    &&& property.value->0 != "0"@
}

/// The name of a property that [`is_input_id`], and nothing for any other.
pub open spec fn input_id_name(property: PropertyView) -> Option<Seq<char>> {
    if is_input_id(property) {
        property.name
    } else {
        None
    }
}

/// The names of the properties that [`is_input_id`], in the properties' order.
pub open spec fn input_id_names(properties: Seq<PropertyView>) -> Seq<Seq<char>> {
    properties.filter_map(|p: PropertyView| input_id_name(p))
}

/// The two properties that give a device's size are never among the names of
/// [`input_id_names`], whatever their values, and their names stand for no
/// capability.
pub proof fn lemma_size_is_no_capability(properties: Seq<PropertyView>)
    ensures
        !input_id_names(properties).contains("ID_INPUT_HEIGHT_MM"@),
        !input_id_names(properties).contains("ID_INPUT_WIDTH_MM"@),
        capability_of_property("ID_INPUT_HEIGHT_MM"@) is None,
        capability_of_property("ID_INPUT_WIDTH_MM"@) is None,
{
    let pick = |p: PropertyView| input_id_name(p);
    assert forall|name: Seq<char>| #[trigger]
        input_id_names(properties).contains(name) implies name != "ID_INPUT_HEIGHT_MM"@ && name
        != "ID_INPUT_WIDTH_MM"@ by {
        properties.lemma_filter_map_contains(pick, name);
    }
    reveal_strlit("ID_INPUT_HEIGHT_MM");
    reveal_strlit("ID_INPUT_WIDTH_MM");
    reveal_strlit("ID_INPUT_KEY");
    reveal_strlit("ID_INPUT_KEYBOARD");
    reveal_strlit("ID_INPUT_MOUSE");
    reveal_strlit("ID_INPUT_TOUCHPAD");
    reveal_strlit("ID_INPUT_TOUCHSCREEN");
    reveal_strlit("ID_INPUT_TRACKBALL");
    reveal_strlit("ID_INPUT_POINTINGSTICK");
    reveal_strlit("ID_INPUT_TABLET");
    reveal_strlit("ID_INPUT_TABLET_PAD");
    reveal_strlit("ID_INPUT_TABLET_JOYSTICK");
    reveal_strlit("ID_INPUT_SWITCH");
    assert("ID_INPUT_HEIGHT_MM"@.len() == 18);
    assert("ID_INPUT_WIDTH_MM"@.len() == 17);
    assert("ID_INPUT_HEIGHT_MM"@[9] == 'H');
    assert("ID_INPUT_WIDTH_MM"@[9] == 'W');
    assert("ID_INPUT_TRACKBALL"@[9] == 'T');
    assert("ID_INPUT_KEYBOARD"@[9] == 'K');
    assert("ID_INPUT_TOUCHPAD"@[9] == 'T');
}

/// The names of all `ID_INPUT` properties that are set to a nonzero value, in
/// the order of `properties`. The two properties that give the device's size in
/// millimetres are no such names.
pub fn input_id_udev_props(properties: &Vec<Property>) -> (names: Vec<String>)
    ensures
        names.deep_view() == input_id_names(properties.deep_view()),
{
    let mut names: Vec<String> = Vec::new();
    let ghost all = properties.deep_view();
    let ghost pick = |p: PropertyView| input_id_name(p);
    let mut i: usize = 0;
    while i < properties.len()
        invariant
            i <= properties.len(),
            all == properties.deep_view(),
            pick == |p: PropertyView| input_id_name(p),
            names.deep_view() == all.take(i as int).filter_map(pick),
        decreases properties.len() - i,
    {
        let property = &properties[i];
        let ghost before = names.deep_view();
        proof {
            all.lemma_filter_map_take_succ(pick, i as int);
            assert(all[i as int] == property.deep_view());
        }
        if let Some(name) = &property.name {
            let chars = chars_of(name.as_str());
            if chars_begin_with(&chars, "ID_INPUT") && !chars_are(&chars, "ID_INPUT_HEIGHT_MM")
                && !chars_are(&chars, "ID_INPUT_WIDTH_MM") {
                if let Some(value) = &property.value {
                    let digits = chars_of(value.as_str());
                    if !chars_are(&digits, "0") {
                        names.push(name.clone());
                        assert(names.deep_view() =~= before + seq![name@]);
                    }
                }
            }
        }
        assert(names.deep_view() =~= all.take(i + 1).filter_map(pick));
        i += 1;
    }
    assert(all.take(i as int) == all);
    names
}

} // verus!
