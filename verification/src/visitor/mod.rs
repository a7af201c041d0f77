//! What a visitor of a class, a field, a method or a code attribute wants to be shown.
use vstd::prelude::*;

verus! {

/// Interest in every part of a class.
pub open spec fn every_class_attribute() -> ClassInterests {
    ClassInterests {
        inner_classes: true,
        enclosing_method: true,
        signature: true,
        source_file: true,
        source_debug_extension: true,
        runtime_visible_annotations: true,
        runtime_invisible_annotations: true,
        runtime_visible_type_annotations: true,
        runtime_invisible_type_annotations: true,
        module: true,
        module_packages: true,
        module_main_class: true,
        nest_host: true,
        nest_members: true,
        permitted_subclasses: true,
        record: true,
        unknown_attributes: true,
        fields: true,
        methods: true,
    }
}

/// Interest in every part of a field.
pub open spec fn every_field_attribute() -> FieldInterests {
    FieldInterests {
        constant_value: true,
        signature: true,
        runtime_visible_annotations: true,
        runtime_invisible_annotations: true,
        runtime_visible_type_annotations: true,
        runtime_invisible_type_annotations: true,
        unknown_attributes: true,
    }
}

/// Interest in every part of a method.
pub open spec fn every_method_attribute() -> MethodInterests {
    MethodInterests {
        code: true,
        exceptions: true,
        signature: true,
        runtime_visible_annotations: true,
        runtime_invisible_annotations: true,
        runtime_visible_type_annotations: true,
        runtime_invisible_type_annotations: true,
        runtime_visible_parameter_annotations: true,
        runtime_invisible_parameter_annotations: true,
        annotation_default: true,
        method_parameters: true,
        unknown_attributes: true,
    }
}

/// Interest in every part of a `Code` attribute.
pub open spec fn every_code_attribute() -> CodeInterests {
    CodeInterests {
        stack_map_table: true,
        line_number_table: true,
        local_variable_table: true,
        local_variable_type_table: true,
        runtime_visible_type_annotations: true,
        runtime_invisible_type_annotations: true,
        unknown_attributes: true,
    }
}


/// Which parts of a class a visitor wants to see.
#[derive(Debug, Clone, Copy, PartialEq, Eq, Structural)]
pub struct ClassInterests {
    pub inner_classes: bool,
    pub enclosing_method: bool,
    pub signature: bool,
    pub source_file: bool,
    pub source_debug_extension: bool,
    pub runtime_visible_annotations: bool,
    pub runtime_invisible_annotations: bool,
    pub runtime_visible_type_annotations: bool,
    pub runtime_invisible_type_annotations: bool,
    pub module: bool,
    pub module_packages: bool,
    pub module_main_class: bool,
    pub nest_host: bool,
    pub nest_members: bool,
    pub permitted_subclasses: bool,
    pub record: bool,
    pub unknown_attributes: bool,
    pub fields: bool,
    pub methods: bool,
}

impl ClassInterests {
    /// Interest in nothing.
    pub fn none() -> (r: ClassInterests)
        ensures
            r.inner_classes == false,
            r.enclosing_method == false,
            r.signature == false,
            r.source_file == false,
            r.source_debug_extension == false,
            r.runtime_visible_annotations == false,
            r.runtime_invisible_annotations == false,
            r.runtime_visible_type_annotations == false,
            r.runtime_invisible_type_annotations == false,
            r.module == false,
            r.module_packages == false,
            r.module_main_class == false,
            r.nest_host == false,
            r.nest_members == false,
            r.permitted_subclasses == false,
            r.record == false,
            r.unknown_attributes == false,
            r.fields == false,
            r.methods == false,
    {
        ClassInterests {
            inner_classes: false,
            enclosing_method: false,
            signature: false,
            source_file: false,
            source_debug_extension: false,
            runtime_visible_annotations: false,
            runtime_invisible_annotations: false,
            runtime_visible_type_annotations: false,
            runtime_invisible_type_annotations: false,
            module: false,
            module_packages: false,
            module_main_class: false,
            nest_host: false,
            nest_members: false,
            permitted_subclasses: false,
            record: false,
            unknown_attributes: false,
            fields: false,
            methods: false,
        }
    }

    /// Interest in everything.
    pub fn all() -> (r: ClassInterests)
        ensures
            r == every_class_attribute(),
            r.inner_classes == true,
            r.enclosing_method == true,
            r.signature == true,
            r.source_file == true,
            r.source_debug_extension == true,
            r.runtime_visible_annotations == true,
            r.runtime_invisible_annotations == true,
            r.runtime_visible_type_annotations == true,
            r.runtime_invisible_type_annotations == true,
            r.module == true,
            r.module_packages == true,
            r.module_main_class == true,
            r.nest_host == true,
            r.nest_members == true,
            r.permitted_subclasses == true,
            r.record == true,
            r.unknown_attributes == true,
            r.fields == true,
            r.methods == true,
    {
        ClassInterests {
            inner_classes: true,
            enclosing_method: true,
            signature: true,
            source_file: true,
            source_debug_extension: true,
            runtime_visible_annotations: true,
            runtime_invisible_annotations: true,
            runtime_visible_type_annotations: true,
            runtime_invisible_type_annotations: true,
            module: true,
            module_packages: true,
            module_main_class: true,
            nest_host: true,
            nest_members: true,
            permitted_subclasses: true,
            record: true,
            unknown_attributes: true,
            fields: true,
            methods: true,
        }
    }
}

/// Which attributes of a field a visitor wants to see.
#[derive(Debug, Clone, Copy, PartialEq, Eq, Structural)]
pub struct FieldInterests {
    pub constant_value: bool,
    pub signature: bool,
    pub runtime_visible_annotations: bool,
    pub runtime_invisible_annotations: bool,
    pub runtime_visible_type_annotations: bool,
    pub runtime_invisible_type_annotations: bool,
    pub unknown_attributes: bool,
}

impl FieldInterests {
    /// Interest in nothing.
    pub fn none() -> (r: FieldInterests)
        ensures
            r.constant_value == false,
            r.signature == false,
            r.runtime_visible_annotations == false,
            r.runtime_invisible_annotations == false,
            r.runtime_visible_type_annotations == false,
            r.runtime_invisible_type_annotations == false,
            r.unknown_attributes == false,
    {
        FieldInterests {
            constant_value: false,
            signature: false,
            runtime_visible_annotations: false,
            runtime_invisible_annotations: false,
            runtime_visible_type_annotations: false,
            runtime_invisible_type_annotations: false,
            unknown_attributes: false,
        }
    }

    /// Interest in everything.
    pub fn all() -> (r: FieldInterests)
        ensures
            r == every_field_attribute(),
            r.constant_value == true,
            r.signature == true,
            r.runtime_visible_annotations == true,
            r.runtime_invisible_annotations == true,
            r.runtime_visible_type_annotations == true,
            r.runtime_invisible_type_annotations == true,
            r.unknown_attributes == true,
    {
        FieldInterests {
            constant_value: true,
            signature: true,
            runtime_visible_annotations: true,
            runtime_invisible_annotations: true,
            runtime_visible_type_annotations: true,
            runtime_invisible_type_annotations: true,
            unknown_attributes: true,
        }
    }
}

/// Which attributes of a method a visitor wants to see.
#[derive(Debug, Clone, Copy, PartialEq, Eq, Structural)]
pub struct MethodInterests {
    pub code: bool,
    pub exceptions: bool,
    pub signature: bool,
    pub runtime_visible_annotations: bool,
    pub runtime_invisible_annotations: bool,
    pub runtime_visible_type_annotations: bool,
    pub runtime_invisible_type_annotations: bool,
    pub runtime_visible_parameter_annotations: bool,
    pub runtime_invisible_parameter_annotations: bool,
    pub annotation_default: bool,
    pub method_parameters: bool,
    pub unknown_attributes: bool,
}

impl MethodInterests {
    /// Interest in nothing.
    pub fn none() -> (r: MethodInterests)
        ensures
            r.code == false,
            r.exceptions == false,
            r.signature == false,
            r.runtime_visible_annotations == false,
            r.runtime_invisible_annotations == false,
            r.runtime_visible_type_annotations == false,
            r.runtime_invisible_type_annotations == false,
            r.runtime_visible_parameter_annotations == false,
            r.runtime_invisible_parameter_annotations == false,
            r.annotation_default == false,
            r.method_parameters == false,
            r.unknown_attributes == false,
    {
        MethodInterests {
            code: false,
            exceptions: false,
            signature: false,
            runtime_visible_annotations: false,
            runtime_invisible_annotations: false,
            runtime_visible_type_annotations: false,
            runtime_invisible_type_annotations: false,
            runtime_visible_parameter_annotations: false,
            runtime_invisible_parameter_annotations: false,
            annotation_default: false,
            method_parameters: false,
            unknown_attributes: false,
        }
    }

    /// Interest in everything.
    pub fn all() -> (r: MethodInterests)
        ensures
            r == every_method_attribute(),
            r.code == true,
            r.exceptions == true,
            r.signature == true,
            r.runtime_visible_annotations == true,
            r.runtime_invisible_annotations == true,
            r.runtime_visible_type_annotations == true,
            r.runtime_invisible_type_annotations == true,
            r.runtime_visible_parameter_annotations == true,
            r.runtime_invisible_parameter_annotations == true,
            r.annotation_default == true,
            r.method_parameters == true,
            r.unknown_attributes == true,
    {
        MethodInterests {
            code: true,
            exceptions: true,
            signature: true,
            runtime_visible_annotations: true,
            runtime_invisible_annotations: true,
            runtime_visible_type_annotations: true,
            runtime_invisible_type_annotations: true,
            runtime_visible_parameter_annotations: true,
            runtime_invisible_parameter_annotations: true,
            annotation_default: true,
            method_parameters: true,
            unknown_attributes: true,
        }
    }
}

/// Which attributes of the `Code` attribute a visitor wants to see.
#[derive(Debug, Clone, Copy, PartialEq, Eq, Structural)]
pub struct CodeInterests {
    pub stack_map_table: bool,
    pub line_number_table: bool,
    pub local_variable_table: bool,
    pub local_variable_type_table: bool,
    pub runtime_visible_type_annotations: bool,
    pub runtime_invisible_type_annotations: bool,
    pub unknown_attributes: bool,
}

impl CodeInterests {
    /// Interest in nothing.
    pub fn none() -> (r: CodeInterests)
        ensures
            r.stack_map_table == false,
            r.line_number_table == false,
            r.local_variable_table == false,
            r.local_variable_type_table == false,
            r.runtime_visible_type_annotations == false,
            r.runtime_invisible_type_annotations == false,
            r.unknown_attributes == false,
    {
        CodeInterests {
            stack_map_table: false,
            line_number_table: false,
            local_variable_table: false,
            local_variable_type_table: false,
            runtime_visible_type_annotations: false,
            runtime_invisible_type_annotations: false,
            unknown_attributes: false,
        }
    }

    /// Interest in everything.
    pub fn all() -> (r: CodeInterests)
        ensures
            r == every_code_attribute(),
            r.stack_map_table == true,
            r.line_number_table == true,
            r.local_variable_table == true,
            r.local_variable_type_table == true,
            r.runtime_visible_type_annotations == true,
            r.runtime_invisible_type_annotations == true,
            r.unknown_attributes == true,
    {
        CodeInterests {
            stack_map_table: true,
            line_number_table: true,
            local_variable_table: true,
            local_variable_type_table: true,
            runtime_visible_type_annotations: true,
            runtime_invisible_type_annotations: true,
            unknown_attributes: true,
        }
    }
}

impl Default for ClassInterests {
    /// Interest in nothing.
    fn default() -> (r: ClassInterests)
        ensures
            r.inner_classes == false,
            r.enclosing_method == false,
            r.signature == false,
            r.source_file == false,
            r.source_debug_extension == false,
            r.runtime_visible_annotations == false,
            r.runtime_invisible_annotations == false,
            r.runtime_visible_type_annotations == false,
            r.runtime_invisible_type_annotations == false,
            r.module == false,
            r.module_packages == false,
            r.module_main_class == false,
            r.nest_host == false,
            r.nest_members == false,
            r.permitted_subclasses == false,
            r.record == false,
            r.unknown_attributes == false,
            r.fields == false,
            r.methods == false,
    {
        ClassInterests::none()
    }
}

impl Default for FieldInterests {
    /// Interest in nothing.
    fn default() -> (r: FieldInterests)
        ensures
            r.constant_value == false,
            r.signature == false,
            r.runtime_visible_annotations == false,
            r.runtime_invisible_annotations == false,
            r.runtime_visible_type_annotations == false,
            r.runtime_invisible_type_annotations == false,
            r.unknown_attributes == false,
    {
        FieldInterests::none()
    }
}

impl Default for MethodInterests {
    /// Interest in nothing.
    fn default() -> (r: MethodInterests)
        ensures
            r.code == false,
            r.exceptions == false,
            r.signature == false,
            r.runtime_visible_annotations == false,
            r.runtime_invisible_annotations == false,
            r.runtime_visible_type_annotations == false,
            r.runtime_invisible_type_annotations == false,
            r.runtime_visible_parameter_annotations == false,
            r.runtime_invisible_parameter_annotations == false,
            r.annotation_default == false,
            r.method_parameters == false,
            r.unknown_attributes == false,
    {
        MethodInterests::none()
    }
}

impl Default for CodeInterests {
    /// Interest in nothing.
    fn default() -> (r: CodeInterests)
        ensures
            r.stack_map_table == false,
            r.line_number_table == false,
            r.local_variable_table == false,
            r.local_variable_type_table == false,
            r.runtime_visible_type_annotations == false,
            r.runtime_invisible_type_annotations == false,
            r.unknown_attributes == false,
    {
        CodeInterests::none()
    }
}

} // verus!
