use lark_jvm::access::{ABSTRACT, FINAL, INTERFACE, PRIVATE, PROTECTED, PUBLIC, STATIC};
use lark_jvm::class_file::{ClassFile, CodeAttribute, ExceptionTableEntry, MemberInfo};
use lark_jvm::class_loader::LoadError;
use lark_jvm::constant_pool::{Constant, RawConstant};
use lark_jvm::heap::{ArrayData, JavaError, ObjectData, Value};
use lark_jvm::invoke_support::{Parameter, ReturnType, ReturnValue};
use lark_jvm::jvm::{Interrupt, Jvm, Step};
use lark_jvm::native::Registry;
use lark_jvm::slots::Slot;
use lark_jvm::thread::Frame;

fn s(x: &str) -> String {
    x.to_string()
}

fn field(flags: u16, name: &str, desc: &str, cv: u16) -> MemberInfo {
    MemberInfo { access_flags: flags, name: s(name), descriptor: s(desc), constant_value_index: cv, code: None }
}

fn method(flags: u16, name: &str, desc: &str, code: Vec<u8>, table: Vec<ExceptionTableEntry>) -> MemberInfo {
    MemberInfo {
        access_flags: flags,
        name: s(name),
        descriptor: s(desc),
        constant_value_index: 0,
        code: Some(CodeAttribute { max_stack: 8, max_locals: 4, code, exception_table: table }),
    }
}

fn class(name: &str, sup: Option<&str>, flags: u16) -> ClassFile {
    ClassFile {
        access_flags: flags,
        name: s(name),
        super_class_name: sup.map(s),
        interface_names: vec![],
        constant_pool: vec![],
        fields: vec![],
        methods: vec![],
        source_file: None,
    }
}

fn define(vm: &mut Jvm, cf: ClassFile) -> usize {
    match vm.define_class(cf) {
        Ok(i) => i,
        Err(e) => panic!("load failed: {:?}", e),
    }
}

fn vm_with_object() -> (Jvm, usize) {
    let mut vm = Jvm::new(Registry::new());
    let object = define(&mut vm, class("java/lang/Object", None, PUBLIC));
    (vm, object)
}

#[test]
fn instance_slots_follow_the_superclass() {
    let (mut vm, _) = vm_with_object();
    let mut a = class("p/A", Some("java/lang/Object"), PUBLIC);
    a.fields = vec![field(0, "a", "I", 0), field(0, "b", "J", 0), field(STATIC, "s", "I", 0)];
    let a = define(&mut vm, a);
    let mut b = class("p/B", Some("p/A"), PUBLIC);
    b.fields = vec![field(0, "c", "I", 0), field(STATIC, "t", "D", 0), field(0, "d", "D", 0)];
    let b = define(&mut vm, b);
    let ca = &vm.loader.classes[a];
    assert_eq!(ca.fields[0].slot_id, 0);
    assert_eq!(ca.fields[1].slot_id, 1);
    assert_eq!(ca.fields[2].slot_id, 0);
    assert_eq!(ca.instance_slot_count, 3);
    assert_eq!(ca.static_slot_count, 1);
    let cb = &vm.loader.classes[b];
    assert_eq!(cb.fields[0].slot_id, 3);
    assert_eq!(cb.fields[1].slot_id, 0);
    assert_eq!(cb.fields[2].slot_id, 4);
    assert_eq!(cb.instance_slot_count, 6);
    assert_eq!(cb.static_slot_count, 2);
    assert_eq!(cb.static_vars.len(), 2);
}

#[test]
fn static_final_constants_are_written_at_preparation() {
    let (mut vm, _) = vm_with_object();
    let mut a = class("p/K", Some("java/lang/Object"), PUBLIC);
    a.constant_pool = vec![RawConstant::Integer(42), RawConstant::Long(-5), RawConstant::Integer(7)];
    a.fields = vec![
        field(STATIC | FINAL, "x", "I", 1),
        field(STATIC | FINAL, "y", "J", 2),
        field(STATIC, "z", "I", 4),
    ];
    let k = define(&mut vm, a);
    let c = &vm.loader.classes[k];
    assert_eq!(c.static_vars.get_int(0), 42);
    assert_eq!(c.static_vars.get_long(1), -5);
    assert_eq!(c.static_vars.get_int(3), 0);
}

#[test]
fn a_missing_superclass_is_asked_for() {
    let (mut vm, _) = vm_with_object();
    match vm.define_class(class("p/B", Some("p/A"), PUBLIC)) {
        Err(LoadError::NeedsClass(n)) => assert_eq!(n, "p/A"),
        other => panic!("unexpected {:?}", other),
    }
    assert_eq!(vm.loader.classes.len(), 1);
    let again = define(&mut vm, class("java/lang/Object", None, PUBLIC));
    assert_eq!(again, 0);
    assert_eq!(vm.loader.classes.len(), 1);
}

#[test]
fn long_and_double_take_two_pool_positions() {
    let (mut vm, _) = vm_with_object();
    let mut a = class("p/P", Some("java/lang/Object"), PUBLIC);
    a.constant_pool = vec![RawConstant::Long(1), RawConstant::Double(2), RawConstant::Class(s("p/P"))];
    let p = define(&mut vm, a);
    let pool = &vm.loader.classes[p].constant_pool;
    assert_eq!(pool.size(), 5);
    assert!(matches!(pool.get_constant(1), Some(Constant::Long(1))));
    assert!(matches!(pool.get_constant(2), Some(Constant::Empty)));
    assert!(matches!(pool.get_constant(3), Some(Constant::Double(2))));
    assert!(matches!(pool.get_constant(4), Some(Constant::Empty)));
    assert!(matches!(pool.get_constant(5), Some(Constant::ClassReference(_))));
    assert!(pool.get_constant(0).is_none());
    assert!(pool.get_constant(6).is_none());
}

#[test]
fn resolving_twice_looks_up_once() {
    let (mut vm, _) = vm_with_object();
    let mut a = class("p/R", Some("java/lang/Object"), PUBLIC);
    a.constant_pool = vec![RawConstant::Class(s("java/lang/Object")), RawConstant::Integer(3)];
    let r = define(&mut vm, a);
    assert_eq!(vm.lookups, 0);
    let first = vm.resolve_class_ref(r, 1).unwrap();
    assert_eq!(vm.lookups, 1);
    let second = vm.resolve_class_ref(r, 1).unwrap();
    assert_eq!(first, 0);
    assert_eq!(second, first);
    assert_eq!(vm.lookups, 1);
    assert!(matches!(vm.resolve_class_ref(r, 2), Err(Interrupt::Throw(JavaError::ClassFormat))));
}

#[test]
fn resolving_an_unloaded_class_asks_for_it() {
    let (mut vm, _) = vm_with_object();
    let mut a = class("p/R", Some("java/lang/Object"), PUBLIC);
    a.constant_pool = vec![RawConstant::Class(s("p/Missing"))];
    let r = define(&mut vm, a);
    match vm.resolve_class_ref(r, 1) {
        Err(Interrupt::NeedsClass(n)) => assert_eq!(n, "p/Missing"),
        other => panic!("unexpected {:?}", other),
    }
    define(&mut vm, class("p/Missing", Some("java/lang/Object"), PUBLIC));
    assert_eq!(vm.resolve_class_ref(r, 1).unwrap(), 2);
}

#[test]
fn package_private_class_is_not_accessible_elsewhere() {
    let (mut vm, _) = vm_with_object();
    define(&mut vm, class("q/Hidden", Some("java/lang/Object"), 0));
    let mut a = class("p/R", Some("java/lang/Object"), PUBLIC);
    a.constant_pool = vec![RawConstant::Class(s("q/Hidden"))];
    let r = define(&mut vm, a);
    assert!(matches!(vm.resolve_class_ref(r, 1), Err(Interrupt::Throw(JavaError::IllegalAccess))));
}

#[test]
fn member_access_rules() {
    let (mut vm, _) = vm_with_object();
    let a = define(&mut vm, class("p/A", Some("java/lang/Object"), PUBLIC));
    let b = define(&mut vm, class("q/B", Some("p/A"), PUBLIC));
    let c = define(&mut vm, class("p/C", Some("java/lang/Object"), PUBLIC));
    let d = define(&mut vm, class("r/D", Some("java/lang/Object"), PUBLIC));
    let l = &vm.loader;
    assert!(l.is_accessible_to(PUBLIC, a, d));
    assert!(l.is_accessible_to(PROTECTED, a, b));
    assert!(l.is_accessible_to(PROTECTED, a, c));
    assert!(!l.is_accessible_to(PROTECTED, a, d));
    assert!(l.is_accessible_to(0, a, c));
    assert!(!l.is_accessible_to(0, a, b));
    assert!(l.is_accessible_to(PRIVATE, a, a));
    assert!(!l.is_accessible_to(PRIVATE, a, c));
    assert!(l.is_sub_class_of(b, a));
    assert!(!l.is_sub_class_of(a, b));
}

fn clinit() -> MemberInfo {
    method(STATIC, "<clinit>", "()V", vec![0xb1], vec![])
}

#[test]
fn init_class_twice_runs_clinit_once() {
    let (mut vm, _) = vm_with_object();
    let mut a = class("p/A", Some("java/lang/Object"), PUBLIC);
    a.methods = vec![clinit()];
    let a = define(&mut vm, a);
    vm.loader.classes[0].initialized = true;
    vm.init_class(a);
    assert!(vm.loader.classes[a].initialized);
    assert_eq!(vm.main_thread.frames.len(), 1);
    vm.init_class(a);
    assert!(vm.loader.classes[a].initialized);
    assert_eq!(vm.main_thread.frames.len(), 1);
    assert_eq!(vm.main_thread.frames[0].class, a);
}

#[test]
fn superclass_initializer_runs_first() {
    let (mut vm, _) = vm_with_object();
    let mut a = class("p/A", Some("java/lang/Object"), PUBLIC);
    a.methods = vec![clinit()];
    let a = define(&mut vm, a);
    let mut b = class("p/B", Some("p/A"), PUBLIC);
    b.methods = vec![clinit()];
    let b = define(&mut vm, b);
    vm.init_class(b);
    assert!(vm.loader.classes[a].initialized);
    assert!(vm.loader.classes[b].initialized);
    assert!(vm.loader.classes[0].initialized);
    assert_eq!(vm.main_thread.frames.len(), 2);
    assert_eq!(vm.main_thread.frames[0].class, b);
    assert_eq!(vm.main_thread.frames[1].class, a);
    // Running drains A's initializer before B's.
    assert!(matches!(vm.step(), Step::Continue));
    assert_eq!(vm.main_thread.frames.len(), 1);
    assert_eq!(vm.main_thread.frames[0].class, b);
}

#[test]
fn interface_does_not_initialize_its_superclass() {
    let (mut vm, _) = vm_with_object();
    let i = define(&mut vm, class("p/I", Some("java/lang/Object"), PUBLIC | INTERFACE | ABSTRACT));
    vm.init_class(i);
    assert!(vm.loader.classes[i].initialized);
    assert!(!vm.loader.classes[0].initialized);
}

/// Classes A and B extends A, each with `f()I` returning 1 and 2; a caller
/// class whose pool names A.f.
fn dispatch_setup() -> (Jvm, usize, usize, usize) {
    let (mut vm, _) = vm_with_object();
    let mut a = class("p/A", Some("java/lang/Object"), PUBLIC);
    a.methods = vec![method(PUBLIC, "f", "()I", vec![0x04, 0xac], vec![])];
    let a = define(&mut vm, a);
    let mut b = class("p/B", Some("p/A"), PUBLIC);
    b.methods = vec![method(PUBLIC, "f", "()I", vec![0x05, 0xac], vec![])];
    let b = define(&mut vm, b);
    let mut m = class("p/Main", Some("java/lang/Object"), PUBLIC);
    m.constant_pool = vec![RawConstant::MethodRef(s("p/A"), s("f"), s("()I"))];
    // aload_0; invokevirtual #1; ireturn
    m.methods = vec![method(PUBLIC | STATIC, "call", "(Lp/A;)I", vec![0x2a, 0xb6, 0x00, 0x01, 0xac], vec![])];
    let main = define(&mut vm, m);
    for k in 0..vm.loader.classes.len() {
        vm.loader.classes[k].initialized = true;
    }
    (vm, a, b, main)
}

#[test]
fn virtual_call_runs_the_override() {
    let (mut vm, _a, b, main) = dispatch_setup();
    let obj = vm.new_object(b);
    vm.begin_invoke(main, 0, &vec![Parameter::Object(Some(obj))]);
    assert!(matches!(vm.run(1, 100), Step::Returned));
    assert_eq!(vm.finish_invoke(ReturnType::Int), Some(ReturnValue::Int(2)));
}

#[test]
fn virtual_call_on_a_base_instance_runs_the_base_method() {
    let (mut vm, a, _b, main) = dispatch_setup();
    let obj = vm.new_object(a);
    vm.begin_invoke(main, 0, &vec![Parameter::Object(Some(obj))]);
    assert!(matches!(vm.run(1, 100), Step::Returned));
    assert_eq!(vm.finish_invoke(ReturnType::Int), Some(ReturnValue::Int(1)));
}

#[test]
fn virtual_call_on_null_raises_null_pointer() {
    let (mut vm, _a, _b, main) = dispatch_setup();
    let npe = define(&mut vm, class("java/lang/NullPointerException", Some("java/lang/Object"), PUBLIC));
    vm.begin_invoke(main, 0, &vec![Parameter::Object(None)]);
    match vm.run(1, 100) {
        Step::Uncaught(o) => assert_eq!(vm.heap[o].class, npe),
        other => panic!("unexpected {:?}", other),
    }
    assert_eq!(vm.main_thread.frames.len(), 0);
}

#[test]
fn select_virtual_picks_the_receiver_class_method() {
    let (mut vm, a, b, main) = dispatch_setup();
    let ob = vm.new_object(b);
    assert_eq!(vm.select_virtual(main, a, 0, Some(ob)), Ok((b, 0)));
    assert_eq!(vm.select_virtual(main, a, 0, None), Err(JavaError::NullPointer));
}

fn handler_setup() -> (Jvm, usize, usize, usize) {
    let (mut vm, _) = vm_with_object();
    let arith = define(&mut vm, class("java/lang/ArithmeticException", Some("java/lang/Object"), PUBLIC));
    let other = define(&mut vm, class("java/lang/IllegalStateException", Some("java/lang/Object"), PUBLIC));
    let mut m = class("p/M", Some("java/lang/Object"), PUBLIC);
    m.constant_pool = vec![RawConstant::Class(s("java/lang/ArithmeticException"))];
    m.methods = vec![method(
        STATIC,
        "g",
        "()V",
        vec![0; 30],
        vec![ExceptionTableEntry::new(10, 20, 10, 1)],
    )];
    let m = define(&mut vm, m);
    (vm, arith, other, m)
}

#[test]
fn matching_handler_takes_the_exception() {
    let (mut vm, arith, _other, m) = handler_setup();
    vm.main_thread.push_frame(Frame::new(m, 0, 4));
    let mut f = Frame::new(m, 0, 4);
    f.operand_stack.push_int(9);
    f.next_pc = 16;
    vm.main_thread.push_frame(f);
    let exc = vm.new_object(arith);
    assert!(vm.find_and_goto_exception_handler(exc, arith));
    assert_eq!(vm.main_thread.frames.len(), 2);
    let top = &vm.main_thread.frames[1];
    assert_eq!(top.next_pc, 10);
    assert_eq!(top.operand_stack.slots, vec![Slot { num: 0, reference: Some(exc) }]);
}

#[test]
fn unrelated_exception_propagates_to_the_caller() {
    let (mut vm, _arith, other, m) = handler_setup();
    let mut caller = Frame::new(m, 0, 4);
    caller.next_pc = 25;
    vm.main_thread.push_frame(caller);
    let mut f = Frame::new(m, 0, 4);
    f.next_pc = 16;
    vm.main_thread.push_frame(f);
    let exc = vm.new_object(other);
    assert!(!vm.find_and_goto_exception_handler(exc, other));
    assert_eq!(vm.main_thread.frames.len(), 0);
}

#[test]
fn find_exception_handler_checks_the_range() {
    let (vm, arith, other, m) = handler_setup();
    assert_eq!(vm.find_exception_handler(m, 0, arith, 15), Some(10));
    assert_eq!(vm.find_exception_handler(m, 0, arith, 10), Some(10));
    assert_eq!(vm.find_exception_handler(m, 0, arith, 20), None);
    assert_eq!(vm.find_exception_handler(m, 0, other, 15), None);
}

#[test]
fn int_array_round_trip_and_bounds() {
    let n = 5;
    let mut a = ArrayData::for_class_name("[I", n);
    assert_eq!(a.len(), n);
    for i in 0..n as i32 {
        assert_eq!(a.store(i, Value::Int(i * 10 - 7)), Ok(()));
    }
    for i in 0..n as i32 {
        assert_eq!(a.load(i), Ok(Value::Int(i * 10 - 7)));
    }
    assert_eq!(a.load(5), Err(JavaError::ArrayIndexOutOfBounds));
    assert_eq!(a.load(-1), Err(JavaError::ArrayIndexOutOfBounds));
    assert_eq!(a.store(5, Value::Int(1)), Err(JavaError::ArrayIndexOutOfBounds));
    assert_eq!(a.store(0, Value::Long(1)), Err(JavaError::ArrayStore));
}

#[test]
fn arrays_of_each_kind_start_zeroed_and_narrow_on_store() {
    let mut b = ArrayData::for_class_name("[B", 2);
    assert_eq!(b.store(0, Value::Int(300)), Ok(()));
    assert_eq!(b.load(0), Ok(Value::Int(44)));
    let l = ArrayData::for_class_name("[J", 3);
    assert_eq!(l.load(2), Ok(Value::Long(0)));
    let mut r = ArrayData::for_class_name("[Ljava/lang/String;", 2);
    assert_eq!(r.load(1), Ok(Value::Ref(None)));
    assert_eq!(r.store(1, Value::Ref(Some(3))), Ok(()));
    assert_eq!(r.load(1), Ok(Value::Ref(Some(3))));
}

#[test]
fn anewarray_builds_a_reference_array() {
    let (mut vm, _) = vm_with_object();
    define(&mut vm, class("[Ljava/lang/Object;", Some("java/lang/Object"), PUBLIC));
    let mut m = class("p/M", Some("java/lang/Object"), PUBLIC);
    m.constant_pool = vec![RawConstant::Class(s("java/lang/Object"))];
    // iconst_3; anewarray #1; areturn
    m.methods = vec![method(STATIC, "mk", "()[Ljava/lang/Object;", vec![0x06, 0xbd, 0x00, 0x01, 0xb0], vec![])];
    let m = define(&mut vm, m);
    vm.begin_invoke(m, 0, &vec![]);
    assert!(matches!(vm.run(1, 100), Step::Returned));
    let r = match vm.finish_invoke(ReturnType::Object) {
        Some(ReturnValue::Object(Some(r))) => r,
        other => panic!("unexpected {:?}", other),
    };
    match &vm.heap[r].data {
        ObjectData::Array(a) => assert_eq!(a.len(), 3),
        _ => panic!("not an array"),
    }
}

#[test]
fn negative_array_size_is_raised() {
    let (mut vm, _) = vm_with_object();
    define(&mut vm, class("[Ljava/lang/Object;", Some("java/lang/Object"), PUBLIC));
    let neg = define(&mut vm, class("java/lang/NegativeArraySizeException", Some("java/lang/Object"), PUBLIC));
    let mut m = class("p/M", Some("java/lang/Object"), PUBLIC);
    m.constant_pool = vec![RawConstant::Class(s("java/lang/Object"))];
    // iconst_m1; anewarray #1; areturn
    m.methods = vec![method(STATIC, "mk", "()[Ljava/lang/Object;", vec![0x02, 0xbd, 0x00, 0x01, 0xb0], vec![])];
    let m = define(&mut vm, m);
    vm.begin_invoke(m, 0, &vec![]);
    match vm.run(1, 100) {
        Step::Uncaught(o) => assert_eq!(vm.heap[o].class, neg),
        other => panic!("unexpected {:?}", other),
    }
}

#[test]
fn new_initializes_the_class_then_runs_again() {
    let (mut vm, _) = vm_with_object();
    let mut a = class("p/A", Some("java/lang/Object"), PUBLIC);
    a.methods = vec![clinit()];
    let a = define(&mut vm, a);
    let mut m = class("p/M", Some("java/lang/Object"), PUBLIC);
    m.constant_pool = vec![RawConstant::Class(s("p/A"))];
    // new #1; areturn
    m.methods = vec![method(STATIC, "mk", "()Lp/A;", vec![0xbb, 0x00, 0x01, 0xb0], vec![])];
    let m = define(&mut vm, m);
    vm.begin_invoke(m, 0, &vec![]);
    assert!(matches!(vm.step(), Step::Continue));
    assert!(vm.loader.classes[a].initialized);
    assert_eq!(vm.main_thread.frames.len(), 3);
    assert_eq!(vm.main_thread.frames[1].next_pc, 0);
    assert!(matches!(vm.run(1, 100), Step::Returned));
    match vm.finish_invoke(ReturnType::Object) {
        Some(ReturnValue::Object(Some(o))) => assert_eq!(vm.heap[o].class, a),
        other => panic!("unexpected {:?}", other),
    }
}

#[test]
fn new_on_abstract_class_raises_instantiation_error() {
    let (mut vm, _) = vm_with_object();
    define(&mut vm, class("p/Abs", Some("java/lang/Object"), PUBLIC | ABSTRACT));
    let err = define(&mut vm, class("java/lang/InstantiationError", Some("java/lang/Object"), PUBLIC));
    let mut m = class("p/M", Some("java/lang/Object"), PUBLIC);
    m.constant_pool = vec![RawConstant::Class(s("p/Abs"))];
    m.methods = vec![method(STATIC, "mk", "()Lp/Abs;", vec![0xbb, 0x00, 0x01, 0xb0], vec![])];
    let m = define(&mut vm, m);
    for k in 0..vm.loader.classes.len() {
        vm.loader.classes[k].initialized = true;
    }
    vm.begin_invoke(m, 0, &vec![]);
    match vm.run(1, 100) {
        Step::Uncaught(o) => assert_eq!(vm.heap[o].class, err),
        other => panic!("unexpected {:?}", other),
    }
}

#[test]
fn xor_and_compare_through_the_interpreter() {
    let (mut vm, _) = vm_with_object();
    let mut m = class("p/M", Some("java/lang/Object"), PUBLIC);
    m.constant_pool = vec![RawConstant::Long(5), RawConstant::Long(9)];
    m.methods = vec![
        // iconst_2; iconst_3; ixor; ireturn
        method(STATIC, "x", "()I", vec![0x05, 0x06, 0x82, 0xac], vec![]),
        // ldc2_w #1; ldc2_w #3; lcmp; ireturn
        method(STATIC, "c", "()I", vec![0x14, 0x00, 0x01, 0x14, 0x00, 0x03, 0x94, 0xac], vec![]),
        // ldc2_w #3; ldc2_w #1; lxor; lreturn
        method(STATIC, "l", "()J", vec![0x14, 0x00, 0x03, 0x14, 0x00, 0x01, 0x83, 0xad], vec![]),
        // iload_0; istore_1; iload_1; ireturn
        method(STATIC, "id", "(I)I", vec![0x1a, 0x3c, 0x1b, 0xac], vec![]),
    ];
    let m = define(&mut vm, m);
    vm.begin_invoke(m, 0, &vec![]);
    assert!(matches!(vm.run(1, 100), Step::Returned));
    assert_eq!(vm.finish_invoke(ReturnType::Int), Some(ReturnValue::Int(1)));
    vm.begin_invoke(m, 1, &vec![]);
    assert!(matches!(vm.run(1, 100), Step::Returned));
    assert_eq!(vm.finish_invoke(ReturnType::Int), Some(ReturnValue::Int(-1)));
    vm.begin_invoke(m, 2, &vec![]);
    assert!(matches!(vm.run(1, 100), Step::Returned));
    assert_eq!(vm.finish_invoke(ReturnType::Long), Some(ReturnValue::Long(12)));
    vm.begin_invoke(m, 3, &vec![Parameter::Int(-77)]);
    assert!(matches!(vm.run(1, 100), Step::Returned));
    assert_eq!(vm.finish_invoke(ReturnType::Int), Some(ReturnValue::Int(-77)));
}

#[test]
fn athrow_is_caught_by_the_handler() {
    let (mut vm, _) = vm_with_object();
    let arith = define(&mut vm, class("java/lang/ArithmeticException", Some("java/lang/Object"), PUBLIC));
    let mut m = class("p/M", Some("java/lang/Object"), PUBLIC);
    m.constant_pool = vec![RawConstant::Class(s("java/lang/ArithmeticException"))];
    // 0: new #1; 3: athrow; 4: iconst_1; 5: ireturn; handler at 6: iconst_5; ireturn
    m.methods = vec![method(
        STATIC,
        "t",
        "()I",
        vec![0xbb, 0x00, 0x01, 0xbf, 0x04, 0xac, 0x08, 0xac],
        vec![ExceptionTableEntry::new(0, 6, 6, 1)],
    )];
    let m = define(&mut vm, m);
    for k in 0..vm.loader.classes.len() {
        vm.loader.classes[k].initialized = true;
    }
    let _ = arith;
    vm.begin_invoke(m, 0, &vec![]);
    assert!(matches!(vm.run(1, 100), Step::Returned));
    assert_eq!(vm.finish_invoke(ReturnType::Int), Some(ReturnValue::Int(5)));
}

#[test]
fn ldc_pushes_an_interned_string() {
    let (mut vm, _) = vm_with_object();
    define(&mut vm, class("java/lang/String", Some("java/lang/Object"), PUBLIC));
    let mut m = class("p/M", Some("java/lang/Object"), PUBLIC);
    m.constant_pool = vec![RawConstant::Str(s("hi"))];
    m.methods = vec![method(STATIC, "s", "()Ljava/lang/String;", vec![0x12, 0x01, 0xb0], vec![])];
    let m = define(&mut vm, m);
    vm.begin_invoke(m, 0, &vec![]);
    assert!(matches!(vm.run(1, 100), Step::Returned));
    let first = vm.finish_invoke(ReturnType::Object);
    vm.begin_invoke(m, 0, &vec![]);
    assert!(matches!(vm.run(1, 100), Step::Returned));
    let second = vm.finish_invoke(ReturnType::Object);
    assert_eq!(first, second);
    match first {
        Some(ReturnValue::Object(Some(o))) => match &vm.heap[o].data {
            ObjectData::Str(t) => assert_eq!(t, "hi"),
            _ => panic!("not a string"),
        },
        other => panic!("unexpected {:?}", other),
    }
}

#[test]
fn getstatic_reads_a_static_final_constant() {
    let (mut vm, _) = vm_with_object();
    let mut m = class("p/M", Some("java/lang/Object"), PUBLIC);
    m.constant_pool = vec![RawConstant::Integer(31), RawConstant::FieldRef(s("p/M"), s("K"), s("I"))];
    m.fields = vec![field(STATIC | FINAL | PUBLIC, "K", "I", 1)];
    // getstatic #2; ireturn
    m.methods = vec![method(STATIC, "k", "()I", vec![0xb2, 0x00, 0x02, 0xac], vec![])];
    let m = define(&mut vm, m);
    vm.loader.classes[0].initialized = true;
    vm.loader.classes[m].initialized = true;
    vm.begin_invoke(m, 0, &vec![]);
    assert!(matches!(vm.run(1, 100), Step::Returned));
    assert_eq!(vm.finish_invoke(ReturnType::Int), Some(ReturnValue::Int(31)));
}

#[test]
fn putfield_writes_the_object_slot() {
    let (mut vm, _) = vm_with_object();
    let mut m = class("p/M", Some("java/lang/Object"), PUBLIC);
    m.constant_pool = vec![RawConstant::FieldRef(s("p/M"), s("v"), s("I"))];
    m.fields = vec![field(PUBLIC, "v", "I", 0)];
    // aload_0; bipush 9; putfield #1; return
    m.methods = vec![method(STATIC, "set", "(Lp/M;)V", vec![0x2a, 0x10, 0x09, 0xb5, 0x00, 0x01, 0xb1], vec![])];
    let m = define(&mut vm, m);
    let o = vm.new_object(m);
    vm.begin_invoke(m, 0, &vec![Parameter::Object(Some(o))]);
    assert!(matches!(vm.run(1, 100), Step::Returned));
    assert_eq!(vm.finish_invoke(ReturnType::Void), Some(ReturnValue::Void));
    match &vm.heap[o].data {
        ObjectData::Fields(f) => assert_eq!(f.get_int(0), 9),
        _ => panic!("not a plain object"),
    }
}

#[test]
fn unsupported_opcode_is_a_fault() {
    let (mut vm, _) = vm_with_object();
    let mut m = class("p/M", Some("java/lang/Object"), PUBLIC);
    m.methods = vec![method(STATIC, "f", "()V", vec![0xca], vec![])];
    let m = define(&mut vm, m);
    vm.begin_invoke(m, 0, &vec![]);
    assert!(matches!(vm.run(1, 100), Step::Fault));
}

#[test]
fn final_field_is_written_only_by_its_own_constructor() {
    let (mut vm, _) = vm_with_object();
    let iae = define(&mut vm, class("java/lang/IllegalAccessError", Some("java/lang/Object"), PUBLIC));
    let mut m = class("p/M", Some("java/lang/Object"), PUBLIC);
    m.constant_pool = vec![RawConstant::FieldRef(s("p/M"), s("v"), s("I"))];
    m.fields = vec![field(PUBLIC | FINAL, "v", "I", 0)];
    // aload_0; bipush 7; putfield #1; return
    let code = vec![0x2a, 0x10, 0x07, 0xb5, 0x00, 0x01, 0xb1];
    m.methods = vec![
        method(0, "<init>", "()V", code.clone(), vec![]),
        method(STATIC, "set", "(Lp/M;)V", code, vec![]),
    ];
    let m = define(&mut vm, m);
    for k in 0..vm.loader.classes.len() {
        vm.loader.classes[k].initialized = true;
    }
    let o = vm.new_object(m);
    vm.begin_invoke(m, 0, &vec![Parameter::Object(Some(o))]);
    assert!(matches!(vm.run(1, 100), Step::Returned));
    vm.finish_invoke(ReturnType::Void);
    match &vm.heap[o].data {
        ObjectData::Fields(f) => assert_eq!(f.get_int(0), 7),
        _ => panic!("not a plain object"),
    }
    vm.begin_invoke(m, 1, &vec![Parameter::Object(Some(o))]);
    match vm.run(1, 100) {
        Step::Uncaught(e) => assert_eq!(vm.heap[e].class, iae),
        other => panic!("unexpected {:?}", other),
    }
}

#[test]
fn getstatic_initializes_the_class_first() {
    let (mut vm, _) = vm_with_object();
    let mut k = class("p/K", Some("java/lang/Object"), PUBLIC);
    k.fields = vec![field(STATIC | PUBLIC, "x", "I", 0)];
    k.methods = vec![clinit()];
    let kc = define(&mut vm, k);
    let mut m = class("p/M", Some("java/lang/Object"), PUBLIC);
    m.constant_pool = vec![RawConstant::FieldRef(s("p/K"), s("x"), s("I"))];
    m.methods = vec![method(STATIC, "g", "()I", vec![0xb2, 0x00, 0x01, 0xac], vec![])];
    let mc = define(&mut vm, m);
    vm.loader.classes[0].initialized = true;
    vm.loader.classes[mc].initialized = true;
    vm.begin_invoke(mc, 0, &vec![]);
    assert!(matches!(vm.step(), Step::Continue));
    assert!(vm.loader.classes[kc].initialized);
    assert_eq!(vm.main_thread.frames.len(), 3);
    assert_eq!(vm.main_thread.frames[1].next_pc, 0);
    assert!(matches!(vm.run(1, 100), Step::Returned));
    assert_eq!(vm.finish_invoke(ReturnType::Int), Some(ReturnValue::Int(0)));
}

#[test]
fn caller_handler_at_pc_zero_takes_a_propagated_exception() {
    let (mut vm, _arith, other, m) = handler_setup();
    let mut c = class("p/C", Some("java/lang/Object"), PUBLIC);
    c.methods = vec![method(STATIC, "h", "()V", vec![0; 30], vec![ExceptionTableEntry::new(0, 30, 0, 0)])];
    let c = define(&mut vm, c);
    let mut caller = Frame::new(c, 0, 4);
    caller.next_pc = 5;
    caller.operand_stack.push_int(1);
    vm.main_thread.push_frame(caller);
    let mut f = Frame::new(m, 0, 4);
    f.next_pc = 16;
    vm.main_thread.push_frame(f);
    let exc = vm.new_object(other);
    assert!(vm.find_and_goto_exception_handler(exc, other));
    assert_eq!(vm.main_thread.frames.len(), 1);
    assert_eq!(vm.main_thread.frames[0].next_pc, 0);
    assert_eq!(vm.main_thread.frames[0].operand_stack.slots, vec![Slot { num: 0, reference: Some(exc) }]);
}

#[test]
fn registering_a_key_again_replaces_its_native() {
    let mut r = Registry::new();
    r.register("p/C", "m", "()V", lark_jvm::native::NativeMethod::IsAlive);
    r.register("p/C", "n", "()V", lark_jvm::native::NativeMethod::Start0);
    r.register("p/C", "m", "()V", lark_jvm::native::NativeMethod::InitIds);
    assert_eq!(r.find("p/C", "m", "()V"), Some(lark_jvm::native::NativeMethod::InitIds));
    assert_eq!(r.find("p/C", "n", "()V"), Some(lark_jvm::native::NativeMethod::Start0));
}
