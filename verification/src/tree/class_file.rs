//! A whole class file, as read.
use vstd::prelude::*;
use crate::jstring::JavaString;
use crate::tree::annotation::{Annotation, AnnotationModel, annotations_view, TypeAnnotation, TypeAnnotationModel,
    type_annotations_view};
use crate::tree::type_annotation::TargetInfoClass;
use crate::tree::attribute::{Attribute, AttributeModel};
use crate::tree::class::{ClassAccess, ClassName, ClassSignature, EnclosingMethod, InnerClass, InnerClassFlags};
use crate::tree::member::{Field, FieldModel, Method, MethodModel};
use crate::tree::module::{Module, ModuleModel, PackageName, class_names_view, opt_str_view};
use crate::tree::record::{RecordComponent, RecordModel};
use crate::tree::version::Version;

verus! {

/// The model of an [`InnerClass`].
pub ghost struct InnerClassModel {
    pub inner_class: Seq<u32>,
    pub outer_class: Option<Seq<u32>>,
    pub inner_name: Option<Seq<u32>>,
    pub flags: InnerClassFlags,
}

impl View for InnerClass {
    type V = InnerClassModel;

    open spec fn view(&self) -> InnerClassModel {
        InnerClassModel {
            inner_class: self.inner_class@,
            outer_class: match &self.outer_class {
                Some(c) => Some(c@),
                None => None,
            },
            inner_name: opt_str_view(self.inner_name),
            flags: self.flags,
        }
    }
}

/// The model of an [`EnclosingMethod`]: the class, and the name and descriptor of the method if there is one.
pub ghost struct EnclosingModel {
    pub class: Seq<u32>,
    pub method: Option<(Seq<u32>, Seq<u32>)>,
}

impl View for EnclosingMethod {
    type V = EnclosingModel;

    open spec fn view(&self) -> EnclosingModel {
        EnclosingModel {
            class: self.class@,
            method: match &self.method {
                Some(m) => Some((m.name@, m.desc@)),
                None => None,
            },
        }
    }
}

/// A class file: the version, the class with its access flags, super class and
/// interfaces, its fields and methods, and the attributes of the class.
///
/// Type annotations are not kept.
#[derive(Debug)]
pub struct ClassFile {
    pub version: Version,
    pub access: ClassAccess,
    pub name: ClassName,
    pub super_class: Option<ClassName>,
    pub interfaces: Vec<ClassName>,

    pub fields: Vec<Field>,
    pub methods: Vec<Method>,

    pub has_deprecated_attribute: bool,
    pub has_synthetic_attribute: bool,

    pub inner_classes: Option<Vec<InnerClass>>,
    pub enclosing_method: Option<EnclosingMethod>,
    pub signature: Option<ClassSignature>,

    pub source_file: Option<JavaString>,
    pub source_debug_extension: Option<JavaString>,

    pub runtime_visible_annotations: Vec<Annotation>,
    pub runtime_invisible_annotations: Vec<Annotation>,
    pub runtime_visible_type_annotations: Vec<TypeAnnotation<TargetInfoClass>>,
    pub runtime_invisible_type_annotations: Vec<TypeAnnotation<TargetInfoClass>>,

    pub module: Option<Module>,
    pub module_packages: Option<Vec<PackageName>>,
    pub module_main_class: Option<ClassName>,

    pub nest_host_class: Option<ClassName>,
    pub nest_members: Option<Vec<ClassName>>,
    pub permitted_subclasses: Option<Vec<ClassName>>,

    pub record_components: Vec<RecordComponent>,

    pub attributes: Vec<Attribute>,
}

/// The model of a [`ClassFile`].
pub ghost struct ClassModel {
    pub version: Version,
    pub access: ClassAccess,
    pub name: Seq<u32>,
    pub super_class: Option<Seq<u32>>,
    pub interfaces: Seq<Seq<u32>>,
    pub fields: Seq<FieldModel>,
    pub methods: Seq<MethodModel>,
    pub has_deprecated_attribute: bool,
    pub has_synthetic_attribute: bool,
    pub inner_classes: Option<Seq<InnerClassModel>>,
    pub enclosing_method: Option<EnclosingModel>,
    pub signature: Option<Seq<u32>>,
    pub source_file: Option<Seq<u32>>,
    pub source_debug_extension: Option<Seq<u32>>,
    pub runtime_visible_annotations: Seq<AnnotationModel>,
    pub runtime_invisible_annotations: Seq<AnnotationModel>,
    pub runtime_visible_type_annotations: Seq<TypeAnnotationModel<TargetInfoClass>>,
    pub runtime_invisible_type_annotations: Seq<TypeAnnotationModel<TargetInfoClass>>,
    pub module: Option<ModuleModel>,
    pub module_packages: Option<Seq<Seq<u32>>>,
    pub module_main_class: Option<Seq<u32>>,
    pub nest_host_class: Option<Seq<u32>>,
    pub nest_members: Option<Seq<Seq<u32>>>,
    pub permitted_subclasses: Option<Seq<Seq<u32>>>,
    pub record_components: Seq<RecordModel>,
    pub attributes: Seq<AttributeModel>,
}

/// The models of inner classes.
pub open spec fn inner_classes_view(v: Seq<InnerClass>) -> Seq<InnerClassModel> {
    v.map_values(|c: InnerClass| c@)
}

/// The models of package names.
pub open spec fn package_names_view(v: Seq<PackageName>) -> Seq<Seq<u32>> {
    v.map_values(|n: PackageName| n@)
}

/// The model of an optional class name.
pub open spec fn opt_name_view(c: Option<ClassName>) -> Option<Seq<u32>> {
    match c {
        Some(x) => Some(x@),
        None => None,
    }
}

/// The model of an optional list of class names.
pub open spec fn opt_names_view(v: Option<Vec<ClassName>>) -> Option<Seq<Seq<u32>>> {
    match v {
        Some(x) => Some(class_names_view(x@)),
        None => None,
    }
}

impl View for ClassFile {
    type V = ClassModel;

    open spec fn view(&self) -> ClassModel {
        ClassModel {
            version: self.version,
            access: self.access,
            name: self.name@,
            super_class: opt_name_view(self.super_class),
            interfaces: class_names_view(self.interfaces@),
            fields: self.fields@.map_values(|f: Field| f@),
            methods: self.methods@.map_values(|m: Method| m@),
            has_deprecated_attribute: self.has_deprecated_attribute,
            has_synthetic_attribute: self.has_synthetic_attribute,
            inner_classes: match &self.inner_classes {
                Some(v) => Some(inner_classes_view(v@)),
                None => None,
            },
            enclosing_method: match &self.enclosing_method {
                Some(e) => Some(e@),
                None => None,
            },
            signature: match &self.signature {
                Some(s) => Some(s@),
                None => None,
            },
            source_file: opt_str_view(self.source_file),
            source_debug_extension: opt_str_view(self.source_debug_extension),
            runtime_visible_annotations: annotations_view(self.runtime_visible_annotations@),
            runtime_invisible_annotations: annotations_view(self.runtime_invisible_annotations@),
            runtime_visible_type_annotations: type_annotations_view(self.runtime_visible_type_annotations@),
            runtime_invisible_type_annotations: type_annotations_view(self.runtime_invisible_type_annotations@),
            module: match &self.module {
                Some(m) => Some(m@),
                None => None,
            },
            module_packages: match &self.module_packages {
                Some(v) => Some(package_names_view(v@)),
                None => None,
            },
            module_main_class: opt_name_view(self.module_main_class),
            nest_host_class: opt_name_view(self.nest_host_class),
            nest_members: opt_names_view(self.nest_members),
            permitted_subclasses: opt_names_view(self.permitted_subclasses),
            record_components: self.record_components@.map_values(|c: RecordComponent| c@),
            attributes: self.attributes@.map_values(|a: Attribute| a@),
        }
    }
}

/// The model of a class with the given version, access flags, name, super
/// class and interfaces, and no members or attributes.
pub open spec fn new_class(version: Version, access: ClassAccess, name: Seq<u32>, super_class: Option<Seq<u32>>,
    interfaces: Seq<Seq<u32>>) -> ClassModel
{
    ClassModel {
        version,
        access,
        name,
        super_class,
        interfaces,
        fields: Seq::empty(),
        methods: Seq::empty(),
        has_deprecated_attribute: false,
        has_synthetic_attribute: false,
        inner_classes: None,
        enclosing_method: None,
        signature: None,
        source_file: None,
        source_debug_extension: None,
        runtime_visible_annotations: Seq::empty(),
        runtime_invisible_annotations: Seq::empty(),
        runtime_visible_type_annotations: Seq::empty(),
        runtime_invisible_type_annotations: Seq::empty(),
        module: None,
        module_packages: None,
        module_main_class: None,
        nest_host_class: None,
        nest_members: None,
        permitted_subclasses: None,
        record_components: Seq::empty(),
        attributes: Seq::empty(),
    }
}

impl ClassFile {
    /// A class with the given version, access flags, name, super class and
    /// interfaces, and no members or attributes.
    pub fn new(version: Version, access: ClassAccess, name: ClassName, super_class: Option<ClassName>,
        interfaces: Vec<ClassName>) -> (r: ClassFile)
        ensures
            r@ == new_class(version, access, name@, opt_name_view(super_class), class_names_view(interfaces@)),
    {
        let r = ClassFile {
            version,
            access,
            name,
            super_class,
            interfaces,
            fields: Vec::new(),
            methods: Vec::new(),
            has_deprecated_attribute: false,
            has_synthetic_attribute: false,
            inner_classes: None,
            enclosing_method: None,
            signature: None,
            source_file: None,
            source_debug_extension: None,
            runtime_visible_annotations: Vec::new(),
            runtime_invisible_annotations: Vec::new(),
            runtime_visible_type_annotations: Vec::new(),
            runtime_invisible_type_annotations: Vec::new(),
            module: None,
            module_packages: None,
            module_main_class: None,
            nest_host_class: None,
            nest_members: None,
            permitted_subclasses: None,
            record_components: Vec::new(),
            attributes: Vec::new(),
        };
        assert(r.fields@.map_values(|f: Field| f@) =~= Seq::<FieldModel>::empty());
        assert(r.methods@.map_values(|m: Method| m@) =~= Seq::<MethodModel>::empty());
        assert(r.record_components@.map_values(|c: RecordComponent| c@) =~= Seq::<RecordModel>::empty());
        assert(r.attributes@.map_values(|a: Attribute| a@) =~= Seq::<AttributeModel>::empty());
        assert(annotations_view(r.runtime_visible_annotations@) =~= Seq::<AnnotationModel>::empty());
        assert(annotations_view(r.runtime_invisible_annotations@) =~= Seq::<AnnotationModel>::empty());
        assert(type_annotations_view(r.runtime_visible_type_annotations@)
            =~= Seq::<TypeAnnotationModel<TargetInfoClass>>::empty());
        assert(type_annotations_view(r.runtime_invisible_type_annotations@)
            =~= Seq::<TypeAnnotationModel<TargetInfoClass>>::empty());
        r
    }
}

} // verus!
