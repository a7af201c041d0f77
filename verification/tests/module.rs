use duke::bytes::ClassReader;
use duke::class_reader::module::read_module;
use duke::class_reader::pool::PoolRead;
use duke::error::Error;
use duke::jstring::JavaString;
use duke::simple_class_writer::module::write_module;
use duke::simple_class_writer::pool::PoolWrite;
use duke::tree::class::ClassName;
use duke::tree::module::{
    Module, ModuleExports, ModuleExportsFlags, ModuleFlags, ModuleName, ModuleOpens, ModuleOpensFlags,
    ModuleProvides, ModuleRequires, ModuleRequiresFlags, PackageName,
};

fn js(s: &str) -> JavaString {
    JavaString::from_str(s)
}

fn module_name(s: &str) -> ModuleName {
    ModuleName::from_inner_unchecked(js(s))
}

fn package_name(s: &str) -> PackageName {
    PackageName::from_inner_unchecked(js(s))
}

fn class_name(s: &str) -> ClassName {
    ClassName::from_inner_unchecked(js(s))
}

fn sample() -> Module {
    Module {
        name: module_name("com.example"),
        flags: ModuleFlags { is_open: true, is_synthetic: false, is_mandated: false },
        version: Some(js("1.0")),
        requires: vec![
            ModuleRequires {
                name: module_name("java.base"),
                flags: ModuleRequiresFlags { is_transitive: false, is_static_phase: false, is_synthetic: false, is_mandated: true },
                version: None,
            },
            ModuleRequires {
                name: module_name("java.sql"),
                flags: ModuleRequiresFlags { is_transitive: true, is_static_phase: true, is_synthetic: false, is_mandated: false },
                version: Some(js("17")),
            },
        ],
        exports: vec![ModuleExports {
            name: package_name("com/example/api"),
            flags: ModuleExportsFlags { is_synthetic: false, is_mandated: false },
            exports_to: vec![module_name("com.friend")],
        }],
        opens: vec![ModuleOpens {
            name: package_name("com/example/impl"),
            flags: ModuleOpensFlags { is_synthetic: true, is_mandated: false },
            opens_to: vec![],
        }],
        uses: vec![class_name("com/example/Service")],
        provides: vec![ModuleProvides {
            name: class_name("com/example/Service"),
            provides_with: vec![class_name("com/example/impl/ServiceImpl"), class_name("com/example/impl/Other")],
        }],
    }
}

#[test]
fn module_write_then_read() {
    let module = sample();
    let mut pool = PoolWrite::new();
    let mut attribute = Vec::new();
    write_module(&mut attribute, &mut pool, &module).unwrap();
    let mut pool_bytes = Vec::new();
    pool.write(&mut pool_bytes).unwrap();
    let pool = PoolRead::read(&mut ClassReader::new(pool_bytes)).unwrap();

    let length = attribute.len();
    let mut reader = ClassReader::new(attribute);
    let read = read_module(&mut reader, &pool).unwrap();
    assert_eq!(read, module);
    assert_eq!(reader.marker(), length);
}

#[test]
fn module_write_shares_pool_entries() {
    let module = sample();
    let mut pool = PoolWrite::new();
    let mut first = Vec::new();
    write_module(&mut first, &mut pool, &module).unwrap();
    let count = pool.constant_pool_count();
    let mut second = Vec::new();
    write_module(&mut second, &mut pool, &module).unwrap();
    assert_eq!(pool.constant_pool_count(), count);
    assert_eq!(first, second);
}

#[test]
fn module_flags_are_written() {
    let module = sample();
    let mut pool = PoolWrite::new();
    let mut attribute = Vec::new();
    write_module(&mut attribute, &mut pool, &module).unwrap();
    // the name index, then the flags, with the bit of an open module
    assert_eq!(&attribute[2..4], &[0x00, 0x10]);
}

#[test]
fn module_read_wrong_entry() {
    // a pool with one Utf8 entry: the module name index must point at a Module entry
    let pool = PoolRead::read(&mut ClassReader::new(vec![0, 2, 1, 0, 1, b'm'])).unwrap();
    let mut reader = ClassReader::new(vec![0, 1, 0, 0, 0, 0]);
    assert_eq!(read_module(&mut reader, &pool).unwrap_err(), Error::WrongPoolEntry);
    let mut reader = ClassReader::new(vec![0]);
    assert_eq!(read_module(&mut reader, &pool).unwrap_err(), Error::UnexpectedEnd);
}
