//! The options that steer finalizing and rendering.

use vstd::prelude::*;

verus! {

/// What can be switched on for one run.
#[derive(Debug)]
pub struct ParseOption {
    /// Collapse members and methods whose names differ only in ASCII case.
    pub merge_method_name: bool,
    /// Leave methods out of the rendering and of the dependencies.
    pub field_only: bool,
    /// Leave the inheritance lines out.
    pub without_parent: bool,
    /// Show a declared type `IName` as `Name`.
    pub without_impl_suffix: bool,
    /// Show a member `NameId` or `NameIds` with type `Name`, where `Name` is a class.
    pub inline_id_suffix: bool,
    /// A suffix taken off displayed names; empty for none.
    pub without_suffix: String,
}

/// The options as plain values.
pub struct OptionModel {
    pub merge_method_name: bool,
    pub field_only: bool,
    pub without_parent: bool,
    pub without_impl_suffix: bool,
    pub inline_id_suffix: bool,
    pub without_suffix: Seq<char>,
}

impl View for ParseOption {
    type V = OptionModel;

    open spec fn view(&self) -> OptionModel {
        OptionModel {
            merge_method_name: self.merge_method_name,
            field_only: self.field_only,
            without_parent: self.without_parent,
            without_impl_suffix: self.without_impl_suffix,
            inline_id_suffix: self.inline_id_suffix,
            without_suffix: self.without_suffix@,
        }
    }
}

impl OptionModel {
    /// Everything switched off and no suffix.
    pub open spec fn none() -> OptionModel {
        OptionModel {
            merge_method_name: false,
            field_only: false,
            without_parent: false,
            without_impl_suffix: false,
            inline_id_suffix: false,
            without_suffix: Seq::empty(),
        }
    }
}

impl Default for ParseOption {
    fn default() -> (option: ParseOption)
        ensures
            option@ == OptionModel::none(),
    {
        ParseOption {
            merge_method_name: false,
            field_only: false,
            without_parent: false,
            without_impl_suffix: false,
            inline_id_suffix: false,
            without_suffix: String::new(),
        }
    }
}

impl Clone for ParseOption {
    fn clone(&self) -> (copy: ParseOption)
        ensures
            copy@ == self@,
    {
        ParseOption {
            merge_method_name: self.merge_method_name,
            field_only: self.field_only,
            without_parent: self.without_parent,
            without_impl_suffix: self.without_impl_suffix,
            inline_id_suffix: self.inline_id_suffix,
            without_suffix: self.without_suffix.clone(),
        }
    }
}

} // verus!
