use anotherps4::loader::symbols::{encode_nid, lookup_known_nid, split_nid_base, SymbolRecord, SymbolResolver, SymbolType};

fn record(name: &str, addr: u64) -> SymbolRecord {
    SymbolRecord {
        name: name.to_string(),
        virtual_address: addr,
        sym_type: SymbolType::Function,
        library: "libkernel".to_string(),
        module: String::new(),
    }
}

#[test]
fn known_nids() {
    assert_eq!(lookup_known_nid("gQX+4GDQjpM"), Some("malloc"));
    assert_eq!(lookup_known_nid("gQX+4GDQjpM#A#B"), Some("malloc"));
    assert_eq!(lookup_known_nid("ekNvsT22rsY"), Some("sceAudioOutOpen"));
    assert_eq!(lookup_known_nid("zzzzzzzzzzz"), None);
    assert_eq!(lookup_known_nid(""), None);
    assert_eq!(split_nid_base("abc#d#e"), "abc");
    assert_eq!(split_nid_base("abc"), "abc");
    assert_eq!(encode_nid("printf", "libc", "libc"), "printf");
}

#[test]
fn resolver_registers_and_resolves() {
    let mut r = SymbolResolver::new();
    assert!(r.is_empty());
    r.add_symbol("nidA".to_string(), record("alpha", 0x1000));
    r.add_symbol("nidB".to_string(), record("beta", 0x2000));
    assert_eq!(r.len(), 2);
    assert_eq!(r.resolve("nidA"), Some(0x1000));
    assert_eq!(r.resolve("beta"), Some(0x2000));
    assert_eq!(r.resolve("gamma"), None);
    assert_eq!(r.find_symbol("nidB").map(|s| s.virtual_address), Some(0x2000));
    assert!(r.find_symbol("beta").is_none());
    // Registering under the same NID replaces.
    r.add_symbol("nidA".to_string(), record("alpha2", 0x3000));
    assert_eq!(r.len(), 2);
    assert_eq!(r.resolve("nidA"), Some(0x3000));
    assert_eq!(r.iter()[0].0, "nidA");
}

#[test]
fn resolver_merge() {
    let mut a = SymbolResolver::default();
    a.add_symbol("x".to_string(), record("x", 1));
    let mut b = SymbolResolver::new();
    b.add_symbol("x".to_string(), record("x", 2));
    b.add_symbol("y".to_string(), record("y", 3));
    a.merge(&b);
    assert_eq!(a.len(), 2);
    assert_eq!(a.resolve("x"), Some(2));
    assert_eq!(a.resolve("y"), Some(3));
}
