use langcraft::layout::{
    FpKind, IrType, NamedStruct, TypeLayout, Types, extend_layout, offset_of, offset_of_array,
    type_layout,
};

fn int_ty(bits: u32) -> IrType {
    IrType::Integer { bits }
}

fn lay(size: usize, align: usize) -> TypeLayout {
    TypeLayout { size, align }
}

#[test]
fn vector_layout() {
    let tys = Types::blank_for_testing();

    let ty = IrType::Vector { element_type: Box::new(int_ty(8)), num_elements: 4 };

    assert_eq!(type_layout(&ty, &tys), lay(4, 4));
}

#[test]
fn struct_offset() {
    let tys = Types::blank_for_testing();

    let element_types = vec![int_ty(32), int_ty(32)];

    assert_eq!(offset_of(&element_types, false, 0, &tys), 0);
    assert_eq!(offset_of(&element_types, false, 1, &tys), 4);
    assert_eq!(offset_of(&element_types, true, 0, &tys), 0);
    assert_eq!(offset_of(&element_types, true, 1, &tys), 4);
}

#[test]
fn integer_layouts() {
    let tys = Types::blank_for_testing();
    assert_eq!(type_layout(&int_ty(1), &tys), lay(1, 1));
    assert_eq!(type_layout(&int_ty(8), &tys), lay(1, 1));
    assert_eq!(type_layout(&int_ty(16), &tys), lay(2, 2));
    assert_eq!(type_layout(&int_ty(24), &tys), lay(3, 4));
    assert_eq!(type_layout(&int_ty(32), &tys), lay(4, 4));
    assert_eq!(type_layout(&int_ty(48), &tys), lay(6, 4));
    assert_eq!(type_layout(&int_ty(64), &tys), lay(8, 4));
    assert_eq!(type_layout(&int_ty(128), &tys), lay(16, 4));
}

#[test]
fn other_scalar_layouts() {
    let tys = Types::blank_for_testing();
    assert_eq!(type_layout(&IrType::Pointer { pointee: Box::new(int_ty(8)), addr_space: 0 }, &tys), lay(4, 4));
    assert_eq!(type_layout(&IrType::Void, &tys), lay(0, 4));
    assert_eq!(type_layout(&IrType::FP(FpKind::Half), &tys), lay(2, 4));
    assert_eq!(type_layout(&IrType::FP(FpKind::Double), &tys), lay(8, 4));
    assert_eq!(type_layout(&IrType::FP(FpKind::X86FP80), &tys), lay(12, 4));
}

#[test]
fn struct_layout_pads_fields() {
    let tys = Types::blank_for_testing();
    let ty = IrType::Struct { element_types: vec![int_ty(8), int_ty(32), int_ty(16)], is_packed: false };
    // i8 at 0, i32 at 4, i16 at 8: size 10, alignment 4
    assert_eq!(type_layout(&ty, &tys), lay(10, 4));
    let fields = vec![int_ty(8), int_ty(32), int_ty(16)];
    assert_eq!(offset_of(&fields, false, 1, &tys), 4);
    assert_eq!(offset_of(&fields, false, 2, &tys), 8);
}

#[test]
fn packed_struct_layout_sums_sizes() {
    let tys = Types::blank_for_testing();
    let ty = IrType::Struct { element_types: vec![int_ty(8), int_ty(32), int_ty(16)], is_packed: true };
    assert_eq!(type_layout(&ty, &tys), lay(7, 1));
    let fields = vec![int_ty(8), int_ty(32), int_ty(16)];
    assert_eq!(offset_of(&fields, true, 1, &tys), 1);
    assert_eq!(offset_of(&fields, true, 2, &tys), 5);
}

#[test]
fn empty_struct_and_array_layouts() {
    let tys = Types::blank_for_testing();
    let s = IrType::Struct { element_types: vec![], is_packed: false };
    assert_eq!(type_layout(&s, &tys), lay(0, 1));
    let a = IrType::Array { element_type: Box::new(int_ty(32)), num_elements: 0 };
    assert_eq!(type_layout(&a, &tys), lay(0, 1));
}

#[test]
fn array_layout_repeats_element() {
    let tys = Types::blank_for_testing();
    let a = IrType::Array { element_type: Box::new(int_ty(16)), num_elements: 3 };
    assert_eq!(type_layout(&a, &tys), lay(6, 2));
    assert_eq!(offset_of_array(&int_ty(16), 2, &tys), 4);
    assert_eq!(offset_of_array(&int_ty(64), 1, &tys), 8);
}

#[test]
fn vector_layout_is_word_aligned() {
    let tys = Types::blank_for_testing();
    // raising the alignment to a word leaves the size as it is
    let v = IrType::Vector { element_type: Box::new(int_ty(8)), num_elements: 3 };
    assert_eq!(type_layout(&v, &tys), lay(3, 4));
    let v = IrType::Vector { element_type: Box::new(int_ty(16)), num_elements: 3 };
    assert_eq!(type_layout(&v, &tys), lay(6, 4));
}

#[test]
fn named_struct_layout_follows_definition() {
    let tys = Types {
        named: vec![NamedStruct {
            name: "pair".to_string(),
            def: Some(IrType::Struct { element_types: vec![int_ty(32), int_ty(8)], is_packed: false }),
        }],
    };
    let ty = IrType::NamedStruct { name: "pair".to_string() };
    assert_eq!(type_layout(&ty, &tys), lay(5, 4));
}

#[test]
fn extend_layout_aligns_the_new_field() {
    let (l, off) = extend_layout(lay(1, 1), lay(4, 4));
    assert_eq!(off, 4);
    assert_eq!(l, lay(8, 4));
    let (l, off) = extend_layout(lay(0, 1), lay(2, 2));
    assert_eq!(off, 0);
    assert_eq!(l, lay(2, 2));
}
