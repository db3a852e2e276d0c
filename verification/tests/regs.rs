use libcme::regs::SCRegType;

#[test]
fn test_type_iter() {
    for sc_regtype in SCRegType::iter() {
        println!("{sc_regtype:?}");
    }
}
