use nix::unistd::Pid;
use randmockery::syscall_override::{HandlerData, OverrideRegistry};

#[test]
fn mod_test_registry() {
    let mut reg = OverrideRegistry::new();
    let atenter = |_| {
        Ok(HandlerData::Buffer {
            buflen: 0,
            bufptr: 0,
        })
    };
    let atexit = |_, _: &_| Ok(());

    reg.add(17, atenter, atexit);
    let el = reg.find(17).unwrap();
    assert_eq!(el.syscall, 17);
    let res: nix::Result<HandlerData> = (el.atenter)(Pid::from_raw(17));
    let len = match res.unwrap() {
        HandlerData::Buffer { buflen, .. } => buflen,
        _ => panic!(),
    };
    assert_eq!(len, 0);
    let done: nix::Result<()> = (el.atexit)(Pid::from_raw(17), &HandlerData::NoData);
    assert!(done.is_ok());
}

#[test]
fn registry_finds_first_override() {
    let mut reg: OverrideRegistry<u8, u8> = OverrideRegistry::new();
    reg.add(318, 1, 10).add(201, 2, 20).add(318, 3, 30);
    assert_eq!(reg.overrides.len(), 3);
    assert_eq!(reg.find_index(318), Some(0));
    assert_eq!(reg.find_index(201), Some(1));
    assert_eq!(reg.find_index(228), None);
    let el = reg.find(318).unwrap();
    assert_eq!((el.atenter, el.atexit), (1, 10));
    el.atexit = 11;
    assert_eq!(reg.overrides[0].atexit, 11);
    assert!(reg.find(228).is_none());
}

#[test]
fn empty_registry_finds_nothing() {
    let mut reg: OverrideRegistry<(), ()> = OverrideRegistry::new();
    assert_eq!(reg.find_index(0), None);
    assert!(reg.find(0).is_none());
}
