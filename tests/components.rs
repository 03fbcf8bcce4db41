use lark_jvm::access::{ABSTRACT, INTERFACE, PUBLIC, STATIC};
use lark_jvm::class::{count_param_slots, ExceptionTable};
use lark_jvm::class_file::{display_16, ClassFile, ClassReader, CodeAttribute, ExceptionTableEntry, MemberInfo};
use lark_jvm::class_path::{DirEntry, GlobalConfig};
use lark_jvm::constant_pool::RawConstant;
use lark_jvm::heap::{ArrayData, JavaError, Object, ObjectData};
use lark_jvm::instrument::create_instrumentation;
use lark_jvm::invoke_support::{prepare_parameter, Parameter};
use lark_jvm::jvm::{Interrupt, Jvm, Step};
use lark_jvm::native::file_output_stream::write_bytes;
use lark_jvm::native::{NativeMethod, Registry};
use lark_jvm::slots::{OperandStack, Slot, Slots};
use lark_jvm::thread::Frame;

fn s(x: &str) -> String {
    x.to_string()
}

fn member(flags: u16, name: &str, desc: &str, code: Option<Vec<u8>>) -> MemberInfo {
    MemberInfo {
        access_flags: flags,
        name: s(name),
        descriptor: s(desc),
        constant_value_index: 0,
        code: code.map(|c| CodeAttribute { max_stack: 4, max_locals: 4, code: c, exception_table: vec![] }),
    }
}

fn class(name: &str, sup: Option<&str>, flags: u16) -> ClassFile {
    ClassFile {
        access_flags: flags,
        name: s(name),
        super_class_name: sup.map(s),
        interface_names: vec![],
        constant_pool: vec![],
        fields: vec![],
        methods: vec![],
        source_file: None,
    }
}

fn define(vm: &mut Jvm, cf: ClassFile) -> usize {
    vm.define_class(cf).unwrap()
}

#[test]
fn display_16_shows_two_hex_digits_per_byte() {
    assert_eq!(display_16(vec![0x0f, 0xa0, 0, 255]), "[0F  A0  00  FF  ");
    assert_eq!(display_16(vec![]), "[");
}

#[test]
fn exception_table_is_read_big_endian() {
    let bytes = vec![0, 2, 0, 1, 0, 9, 0, 12, 0, 3, 1, 0, 1, 1, 1, 2, 0, 0, 0xff];
    let mut r = ClassReader::new(bytes);
    let t = ExceptionTableEntry::read_exception_table(&mut r).unwrap();
    assert_eq!(t.len(), 2);
    assert_eq!((t[0].start_pc(), t[0].end_pc(), t[0].handler_pc(), t[0].catch_type()), (1, 9, 12, 3));
    assert_eq!((t[1].start_pc(), t[1].end_pc(), t[1].handler_pc(), t[1].catch_type()), (256, 257, 258, 0));
    assert_eq!(r.pos, 18);
    let mut short = ClassReader::new(vec![0, 1, 0, 0]);
    assert!(ExceptionTableEntry::read_exception_table(&mut short).is_none());
    assert_eq!(short.pos, 0);
    let table = ExceptionTable::new(&t);
    assert_eq!(table.table[1].handler_pc(), 258);
    assert_eq!(ExceptionTable::none().table.len(), 0);
}

#[test]
fn parameter_slots_of_descriptors() {
    assert_eq!(count_param_slots("()V"), 0);
    assert_eq!(count_param_slots("(IJ)V"), 3);
    assert_eq!(count_param_slots("(Ljava/lang/String;[JD)I"), 4);
    assert_eq!(count_param_slots("([[Ljava/lang/Object;ZB)V"), 3);
}

#[test]
fn instance_methods_count_this() {
    let mut vm = Jvm::new(Registry::new());
    let mut c = class("p/C", None, PUBLIC);
    c.methods = vec![member(0, "f", "(JI)V", Some(vec![0xb1])), member(STATIC, "g", "(JI)V", Some(vec![0xb1]))];
    let c = define(&mut vm, c);
    assert_eq!(vm.loader.classes[c].methods[0].arg_slot_count, 4);
    assert_eq!(vm.loader.classes[c].methods[1].arg_slot_count, 3);
}

#[test]
fn class_names_and_sources() {
    let mut vm = Jvm::new(Registry::new());
    let mut c = class("java/util/List", None, PUBLIC);
    c.source_file = Some(s("List.java"));
    let c = define(&mut vm, c);
    let d = define(&mut vm, class("Top", None, 0));
    assert_eq!(vm.loader.classes[c].java_name(), "java.util.List");
    assert_eq!(vm.loader.classes[c].source_file(), "List.java");
    assert_eq!(vm.loader.classes[d].source_file(), "Unknown");
    assert!(!vm.loader.same_package(c, d));
    assert_eq!(vm.loader.find_class("Top"), Some(d));
    assert_eq!(vm.loader.find_class("Nope"), None);
}

#[test]
fn assignability() {
    let mut vm = Jvm::new(Registry::new());
    let object = define(&mut vm, class("java/lang/Object", None, PUBLIC));
    let cloneable = define(&mut vm, class("java/lang/Cloneable", Some("java/lang/Object"), PUBLIC | INTERFACE | ABSTRACT));
    let mut i2 = class("p/I2", Some("java/lang/Object"), PUBLIC | INTERFACE | ABSTRACT);
    i2.interface_names = vec![s("java/lang/Cloneable")];
    let i2 = define(&mut vm, i2);
    let mut a = class("p/A", Some("java/lang/Object"), PUBLIC);
    a.interface_names = vec![s("p/I2")];
    let a = define(&mut vm, a);
    let b = define(&mut vm, class("p/B", Some("p/A"), PUBLIC));
    let arr = define(&mut vm, class("[Lp/A;", Some("java/lang/Object"), PUBLIC));
    let objarr = define(&mut vm, class("[Ljava/lang/Object;", Some("java/lang/Object"), PUBLIC));
    let l = &vm.loader;
    assert!(l.is_assignable_from(object, b));
    assert!(l.is_assignable_from(a, b));
    assert!(!l.is_assignable_from(b, a));
    assert!(l.is_assignable_from(cloneable, b));
    assert!(l.is_implements(b, cloneable));
    assert!(l.is_sub_interface_of(i2, cloneable));
    assert!(l.is_assignable_from(cloneable, i2));
    assert!(l.is_assignable_from(object, i2));
    assert!(l.is_assignable_from(cloneable, arr));
    assert!(l.is_assignable_from(objarr, arr));
    assert!(!l.is_assignable_from(arr, objarr));
}

#[test]
fn method_resolution_errors() {
    let mut vm = Jvm::new(Registry::new());
    define(&mut vm, class("java/lang/Object", None, PUBLIC));
    let mut i = class("p/I", Some("java/lang/Object"), PUBLIC | INTERFACE | ABSTRACT);
    i.methods = vec![member(PUBLIC | ABSTRACT, "m", "()V", None)];
    define(&mut vm, i);
    let mut k = class("p/K", Some("java/lang/Object"), PUBLIC);
    k.methods = vec![member(PUBLIC, "m", "()V", Some(vec![0xb1]))];
    k.constant_pool = vec![
        RawConstant::MethodRef(s("p/I"), s("m"), s("()V")),
        RawConstant::MethodRef(s("p/K"), s("zz"), s("()V")),
        RawConstant::InterfaceMethodRef(s("p/K"), s("m"), s("()V")),
        RawConstant::FieldRef(s("p/K"), s("nope"), s("I")),
        RawConstant::InterfaceMethodRef(s("p/I"), s("m"), s("()V")),
        RawConstant::MethodRef(s("p/K"), s("m"), s("()V")),
    ];
    let kc = define(&mut vm, k);
    assert!(matches!(vm.resolve_method_ref(kc, 1), Err(Interrupt::Throw(JavaError::IncompatibleClassChange))));
    assert!(matches!(vm.resolve_method_ref(kc, 2), Err(Interrupt::Throw(JavaError::NoSuchMethod))));
    assert!(matches!(
        vm.resolve_interface_method_ref(kc, 3),
        Err(Interrupt::Throw(JavaError::IncompatibleClassChange))
    ));
    assert!(matches!(vm.resolve_field_ref(kc, 4), Err(Interrupt::Throw(JavaError::NoSuchField))));
    assert_eq!(vm.resolve_interface_method_ref(kc, 5).unwrap(), (1, 0));
    assert_eq!(vm.resolve_method_ref(kc, 6).unwrap(), (kc, 0));
    assert!(matches!(vm.resolve_method_ref(kc, 5), Err(Interrupt::Throw(JavaError::ClassFormat))));
}

#[test]
fn interface_dispatch_selects_the_implementation() {
    let mut vm = Jvm::new(Registry::new());
    define(&mut vm, class("java/lang/Object", None, PUBLIC));
    let mut i = class("p/I", Some("java/lang/Object"), PUBLIC | INTERFACE | ABSTRACT);
    i.methods = vec![member(PUBLIC | ABSTRACT, "m", "()V", None)];
    let ic = define(&mut vm, i);
    let mut k = class("p/K", Some("java/lang/Object"), PUBLIC);
    k.interface_names = vec![s("p/I")];
    k.methods = vec![member(PUBLIC, "m", "()V", Some(vec![0xb1]))];
    let kc = define(&mut vm, k);
    let other = define(&mut vm, class("p/O", Some("java/lang/Object"), PUBLIC));
    let ok = vm.new_object(kc);
    let oo = vm.new_object(other);
    assert_eq!(vm.select_interface(ic, 0, Some(ok)), Ok((kc, 0)));
    assert_eq!(vm.select_interface(ic, 0, Some(oo)), Err(JavaError::IncompatibleClassChange));
    assert_eq!(vm.select_interface(ic, 0, None), Err(JavaError::NullPointer));
}

#[test]
fn natives_run_in_place_of_bytecode() {
    let mut registry = Registry::new();
    lark_jvm::native::lang::init(&mut registry);
    lark_jvm::native::atomic_long::init(&mut registry);
    lark_jvm::native::file_output_stream::init(&mut registry);
    assert_eq!(registry.find("java/lang/Thread", "isAlive", "()Z"), Some(NativeMethod::IsAlive));
    assert_eq!(registry.find("java/lang/Thread", "isAlive", "()V"), None);
    let mut vm = Jvm::new(registry);
    define(&mut vm, class("java/lang/Object", None, PUBLIC));
    define(&mut vm, class("java/lang/String", Some("java/lang/Object"), PUBLIC));
    let gc = define(&mut vm, class("java/lang/ThreadGroup", Some("java/lang/Object"), PUBLIC));
    let mut t = class("java/lang/Thread", Some("java/lang/Object"), PUBLIC);
    t.fields = vec![
        MemberInfo { access_flags: 0, name: s("priority"), descriptor: s("I"), constant_value_index: 0, code: None },
        MemberInfo { access_flags: 0, name: s("name"), descriptor: s("Ljava/lang/String;"), constant_value_index: 0, code: None },
        MemberInfo { access_flags: 0, name: s("group"), descriptor: s("Ljava/lang/ThreadGroup;"), constant_value_index: 0, code: None },
    ];
    t.methods = vec![
        member(PUBLIC, "isAlive", "()Z", None),
        member(PUBLIC | STATIC, "currentThread", "()Ljava/lang/Thread;", None),
    ];
    let tc = define(&mut vm, t);
    let obj = vm.new_object(tc);
    let mut caller = Frame::new(tc, 0, 0);
    caller.operand_stack.push_int(5);
    caller.operand_stack.push_ref(Some(obj));
    vm.main_thread.push_frame(caller);
    assert!(matches!(vm.invoke_method(tc, 0), Step::Continue));
    assert_eq!(vm.main_thread.frames.len(), 1);
    assert_eq!(vm.main_thread.frames[0].operand_stack.slots, vec![Slot { num: 5, reference: None }, Slot { num: 0, reference: None }]);
    assert!(matches!(vm.invoke_method(tc, 1), Step::Continue));
    let r = vm.main_thread.frames[0].operand_stack.slots[2].reference.unwrap();
    assert_eq!(vm.heap[r].class, tc);
    match &vm.heap[r].data {
        ObjectData::Fields(f) => {
            assert_eq!(f.get_int(0), 1);
            let name = f.get_ref(1).unwrap();
            assert!(matches!(&vm.heap[name].data, ObjectData::Str(t) if t == "Main"));
            let group = f.get_ref(2).unwrap();
            assert_eq!(vm.heap[group].class, gc);
        }
        _ => panic!("not a plain object"),
    }
}

#[test]
fn write_bytes_takes_the_slice() {
    let a = ArrayData::Bytes(vec![104, 105, -1, 33]);
    assert_eq!(write_bytes(&a, 1, 2), Ok(vec![105u8, 255]));
    assert_eq!(write_bytes(&a, 3, 2), Err(JavaError::ArrayIndexOutOfBounds));
    assert_eq!(write_bytes(&a, -1, 1), Err(JavaError::ArrayIndexOutOfBounds));
    assert_eq!(write_bytes(&ArrayData::Ints(vec![1]), 0, 1), Err(JavaError::ArrayStore));
}

#[test]
fn uncaught_exception_report() {
    let mut vm = Jvm::new(Registry::new());
    define(&mut vm, class("java/lang/Object", None, PUBLIC));
    let mut e = class("java/lang/RuntimeException", Some("java/lang/Object"), PUBLIC);
    e.fields = vec![MemberInfo {
        access_flags: 0,
        name: s("detailMessage"),
        descriptor: s("Ljava/lang/String;"),
        constant_value_index: 0,
        code: None,
    }];
    let ec = define(&mut vm, e);
    let sc = define(&mut vm, class("java/lang/String", Some("java/lang/Object"), PUBLIC));
    let mut m = class("p/Main", Some("java/lang/Object"), PUBLIC);
    m.source_file = Some(s("Main.java"));
    m.methods = vec![member(STATIC, "run", "()V", Some(vec![0xb1]))];
    let mc = define(&mut vm, m);
    vm.main_thread.push_frame(Frame::new(mc, 0, 0));
    assert_eq!(vm.stack_trace(), vec![s("at p.Main.run(Main.java)")]);
    let exc = vm.new_object(ec);
    vm.heap.push(Object { class: sc, data: ObjectData::Str(s("boom")) });
    let text = vm.heap.len() - 1;
    if let ObjectData::Fields(f) = &mut vm.heap[exc].data {
        f.set_ref(0, Some(text));
    }
    assert_eq!(vm.handle_uncaught_exception(exc), "java.lang.RuntimeException: boom");
    assert_eq!(vm.main_thread.frames.len(), 0);
}

#[test]
fn missing_error_class_is_requested_then_raised() {
    let mut vm = Jvm::new(Registry::new());
    define(&mut vm, class("java/lang/Object", None, PUBLIC));
    let mut m = class("p/M", Some("java/lang/Object"), PUBLIC);
    m.methods = vec![member(STATIC, "f", "()V", Some(vec![0xb1]))];
    let mc = define(&mut vm, m);
    vm.main_thread.push_frame(Frame::new(mc, 0, 0));
    match vm.raise(JavaError::NullPointer) {
        Step::NeedsClass(n) => assert_eq!(n, "java/lang/NullPointerException"),
        other => panic!("unexpected {:?}", other),
    }
    assert_eq!(vm.pending_error, Some(JavaError::NullPointer));
    let npe = define(&mut vm, class("java/lang/NullPointerException", Some("java/lang/Object"), PUBLIC));
    match vm.step() {
        Step::Uncaught(o) => assert_eq!(vm.heap[o].class, npe),
        other => panic!("unexpected {:?}", other),
    }
    assert_eq!(vm.pending_error, None);
    assert_eq!(JavaError::AbstractMethod.class_name(), "java/lang/AbstractMethodError");
}

#[test]
fn array_classes_are_covariant_in_their_elements() {
    let mut vm = Jvm::new(Registry::new());
    define(&mut vm, class("java/lang/Object", None, PUBLIC));
    define(&mut vm, class("java/lang/Number", Some("java/lang/Object"), PUBLIC | ABSTRACT));
    define(&mut vm, class("java/lang/Integer", Some("java/lang/Number"), PUBLIC));
    define(&mut vm, class("java/lang/String", Some("java/lang/Object"), PUBLIC));
    let nums = define(&mut vm, class("[Ljava/lang/Number;", Some("java/lang/Object"), PUBLIC));
    let ints = define(&mut vm, class("[Ljava/lang/Integer;", Some("java/lang/Object"), PUBLIC));
    let strs = define(&mut vm, class("[Ljava/lang/String;", Some("java/lang/Object"), PUBLIC));
    let objs = define(&mut vm, class("[Ljava/lang/Object;", Some("java/lang/Object"), PUBLIC));
    let strs2 = define(&mut vm, class("[[Ljava/lang/String;", Some("java/lang/Object"), PUBLIC));
    let objs2 = define(&mut vm, class("[[Ljava/lang/Object;", Some("java/lang/Object"), PUBLIC));
    let iarr = define(&mut vm, class("[I", Some("java/lang/Object"), PUBLIC));
    let jarr = define(&mut vm, class("[J", Some("java/lang/Object"), PUBLIC));
    let l = &vm.loader;
    assert!(l.is_assignable_from(nums, ints));
    assert!(!l.is_assignable_from(ints, nums));
    assert!(!l.is_assignable_from(nums, strs));
    assert!(l.is_assignable_from(objs, strs));
    assert!(l.is_assignable_from(objs2, strs2));
    assert!(!l.is_assignable_from(iarr, jarr));
    assert!(!l.is_assignable_from(objs, iarr));
}

#[test]
fn arguments_array_and_parameters() {
    let mut vm = Jvm::new(Registry::new());
    define(&mut vm, class("java/lang/Object", None, PUBLIC));
    assert!(matches!(vm.create_args_array(&vec![s("a")]), Err(Step::NeedsClass(_))));
    define(&mut vm, class("java/lang/String", Some("java/lang/Object"), PUBLIC));
    define(&mut vm, class("[Ljava/lang/String;", Some("java/lang/Object"), PUBLIC));
    let arr = vm.create_args_array(&vec![s("a"), s("b"), s("a")]).unwrap();
    match &vm.heap[arr].data {
        ObjectData::Array(ArrayData::References(v)) => {
            assert_eq!(v.len(), 3);
            assert_eq!(v[0], v[2]);
            assert_ne!(v[0], v[1]);
        }
        _ => panic!("not a reference array"),
    }
    let slots = prepare_parameter(&vec![Parameter::Int(3), Parameter::Long(-1), Parameter::Boolean(true)]);
    assert_eq!(slots.len(), 4);
    assert_eq!(slots[0].num, 3);
    assert_eq!(slots[1].num, -1);
    assert_eq!(slots[2].num, -1);
    assert_eq!(slots[3].num, 1);
}

#[test]
fn instrumentation_needs_its_class() {
    let mut vm = Jvm::new(Registry::new());
    match create_instrumentation(&mut vm) {
        Err(Step::NeedsClass(n)) => assert_eq!(n, "sun/instrument/InstrumentationImpl"),
        _ => panic!("expected a class request"),
    }
    define(&mut vm, class("java/lang/Object", None, PUBLIC));
    let mut c = class("sun/instrument/InstrumentationImpl", Some("java/lang/Object"), PUBLIC);
    c.methods = vec![member(0, "<init>", "(JZZ)V", Some(vec![0xb1]))];
    let cc = define(&mut vm, c);
    let o = create_instrumentation(&mut vm).unwrap();
    assert_eq!(vm.heap[o].class, cc);
    assert_eq!(vm.main_thread.frames.len(), 2);
    assert_eq!(vm.main_thread.frames[1].local_vars.get_ref(0), Some(o));
}

#[test]
fn slots_and_stack_keep_longs() {
    let mut s = Slots::with_capacity(3);
    s.set_long(1, -123456789012345);
    assert_eq!(s.get_long(1), -123456789012345);
    assert_eq!(s.get_int(0), 0);
    let mut st = OperandStack::new();
    st.push_long(i64::MIN);
    st.push_int(7);
    assert_eq!(st.pop_int(), 7);
    assert_eq!(st.pop_long(), i64::MIN);
    assert_eq!(st.size(), 0);
}

#[test]
fn class_path_entries() {
    let d = DirEntry::new(&s("/opt/classes"));
    assert_eq!(d.class_file_path("java/lang/Object.class"), "/opt/classes/java/lang/Object.class");
    assert_eq!(d.to_string(), "/opt/classes");
    let g = GlobalConfig::new("linux");
    assert_eq!(g.os, "linux");
    assert_eq!(g.boot_lib_path, "");
}

#[test]
fn array_and_primitive_class_descriptors_load() {
    let mut vm = Jvm::new(Registry::new());
    define(&mut vm, class("java/lang/Object", None, PUBLIC));
    define(&mut vm, class("java/lang/Cloneable", Some("java/lang/Object"), PUBLIC | INTERFACE | ABSTRACT));
    define(&mut vm, class("java/io/Serializable", Some("java/lang/Object"), PUBLIC | INTERFACE | ABSTRACT));
    let a = define(&mut vm, ClassFile::new_array_class("[I"));
    assert!(vm.loader.classes[a].is_array());
    assert!(vm.loader.classes[a].initialized);
    assert_eq!(vm.loader.classes[a].super_class, Some(0));
    assert_eq!(vm.loader.classes[a].interfaces, vec![1, 2]);
    let p = define(&mut vm, ClassFile::primitive_class("int"));
    assert_eq!(vm.loader.classes[p].super_class, None);
    assert!(!vm.loader.classes[p].is_array());
}

#[test]
fn class_reader_reads_big_endian_values() {
    let mut r = ClassReader::new(vec![0xCA, 0xFE, 0xBA, 0xBE, 0x00, 0x07, 1, 2, 3]);
    assert_eq!(r.read_u32(), Some(0xCAFE_BABE));
    assert_eq!(r.read_u16(), Some(7));
    assert_eq!(r.read_bytes(4), None);
    assert_eq!(r.pos, 6);
    assert_eq!(r.read_bytes(2), Some(vec![1, 2]));
    assert_eq!(r.read_u8(), Some(3));
    assert_eq!(r.read_u8(), None);
    assert_eq!(r.read_u16(), None);
}
