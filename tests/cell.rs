use my_cells::cell::MyCell;

#[test]
fn cell_it_works() {
    let mut cell = MyCell::new(1);
    assert_eq!(cell.get(), 1);

    cell.set(2);
    assert_eq!(cell.get(), 2);
}

#[test]
fn cell_holds_a_copy_type_value() {
    let mut cell = MyCell::new((7u8, 'x'));
    assert_eq!(cell.get(), (7u8, 'x'));
    cell.set((0u8, 'y'));
    assert_eq!(cell.get(), (0u8, 'y'));
    assert_eq!(cell.get(), (0u8, 'y'));
}

#[test]
fn cell_set_then_get_each_value() {
    let mut cell = MyCell::new(0u64);
    for v in [5u64, u64::MAX, 0, 42] {
        cell.set(v);
        assert_eq!(cell.get(), v);
    }
}
