use rusty_rpc::interface::{DataType, Identifier, Method, ReturnType, RpcInterface, Service, Struct};
use rusty_rpc::parser::parse_interface;

fn ident(s: &str) -> Identifier {
    Identifier(s.as_bytes().to_vec())
}

#[test]
fn test_parse_interface() {
    let input = r#"
            struct Foo {
                x : i32 ,
                y : Foo ,
            }

            service MyService {
                foo ( & self ) -> i32 ;
                bar ( & self , arg1 : i32 , arg2 : Foo ) -> Foo ;
                baz ( & self ) -> & service MyService ;
            }
        "#;
    let expected = RpcInterface {
        structs: vec![(
            ident("Foo"),
            Struct {
                fields: vec![
                    (ident("x"), DataType::I32),
                    (ident("y"), DataType::Struct(ident("Foo"))),
                ],
            },
        )],
        services: vec![(
            ident("MyService"),
            Service {
                methods: vec![
                    (
                        ident("foo"),
                        Method {
                            non_self_params: vec![],
                            return_type: ReturnType::Data(DataType::I32),
                        },
                    ),
                    (
                        ident("bar"),
                        Method {
                            non_self_params: vec![
                                (ident("arg1"), DataType::I32),
                                (ident("arg2"), DataType::Struct(ident("Foo"))),
                            ],
                            return_type: ReturnType::Data(DataType::Struct(ident("Foo"))),
                        },
                    ),
                    (
                        ident("baz"),
                        Method {
                            non_self_params: vec![],
                            return_type: ReturnType::ServiceRefMut(ident("MyService")),
                        },
                    ),
                ],
            },
        )],
    };
    assert_eq!(Some(expected), parse_interface(input.as_bytes()));
}

#[test]
fn parse_interface_empty_input_is_empty_interface() {
    let parsed = parse_interface(b"").expect("empty input parses");
    assert!(parsed.structs.is_empty());
    assert!(parsed.services.is_empty());
    let parsed = parse_interface(b"  \n\t  ").expect("whitespace-only input parses");
    assert!(parsed.structs.is_empty());
    assert!(parsed.services.is_empty());
}

#[test]
fn parse_interface_rejects_reserved_names() {
    assert_eq!(None, parse_interface(b"struct self { }"));
    assert_eq!(None, parse_interface(b"service crate { }"));
    assert_eq!(None, parse_interface(b"struct A { mut : i32 , }"));
}

#[test]
fn parse_interface_rejects_duplicates() {
    assert_eq!(None, parse_interface(b"struct A { } struct A { }"));
    assert_eq!(None, parse_interface(b"service A { } service A { }"));
    assert_eq!(None, parse_interface(b"struct A { x : i32 , x : i32 , }"));
    assert_eq!(
        None,
        parse_interface(b"service A { m ( & self ) -> i32 ; m ( & self ) -> i32 ; }")
    );
    // A struct and a service may share a name: they live in different
    // namespaces.
    assert!(parse_interface(b"struct A { } service A { }").is_some());
}

#[test]
fn parse_interface_rejects_leftover_input() {
    assert_eq!(None, parse_interface(b"struct A { } trailing"));
    assert_eq!(None, parse_interface(b"struct A {"));
    assert_eq!(None, parse_interface(b"struct A { x : i32x , }"));
}

#[test]
fn parse_interface_keeps_declaration_order() {
    let parsed = parse_interface(
        b"service S { first ( & self ) -> i32 ; second ( & self ) -> i32 ; third ( & self ) -> i32 ; }",
    )
    .expect("parses");
    let (_, service) = &parsed.services[0];
    // The vector index is the MethodId mapping: declaration order, from 0.
    assert_eq!(ident("first"), service.methods[0].0);
    assert_eq!(ident("second"), service.methods[1].0);
    assert_eq!(ident("third"), service.methods[2].0);
}

#[test]
fn parse_interface_dense_whitespace_variants() {
    let parsed = parse_interface(b"struct P{x:i32,}service Q{m(&self)->&service Q;}")
        .expect("dense spacing parses");
    assert_eq!(1, parsed.structs.len());
    assert_eq!(1, parsed.services.len());
    assert_eq!(
        ReturnType::ServiceRefMut(ident("Q")),
        parsed.services[0].1.methods[0].1.return_type
    );
}
