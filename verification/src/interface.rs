//! Data structures representing an RPC interface.
//!
//! An interface description enumerates record types with named, typed
//! fields and service types with methods. Method order within a service is
//! significant: it fixes the `MethodId` mapping, the i-th declared method
//! having id i. The maps from names to definitions are association vectors
//! in declaration order, with the no-duplicate guarantee established by
//! the parser.

use vstd::prelude::*;

verus! {

/// A name from the interface description, as its bytes.
#[derive(Debug, PartialEq, Eq)]
pub struct Identifier(pub Vec<u8>);

impl View for Identifier {
    type V = Seq<u8>;

    open spec fn view(&self) -> Seq<u8> {
        self.0@
    }
}

/// A data type: a 32-bit integer or a named record type.
#[derive(Debug, PartialEq, Eq)]
pub enum DataType {
    I32,
    Struct(Identifier),
}

/// Ghost model of [`DataType`].
pub enum SpecDataType {
    I32,
    Struct(Seq<u8>),
}

impl View for DataType {
    type V = SpecDataType;

    open spec fn view(&self) -> SpecDataType {
        match self {
            DataType::I32 => SpecDataType::I32,
            DataType::Struct(name) => SpecDataType::Struct(name@),
        }
    }
}

/// What a method returns: a borrowed reference to a named service type, or
/// a data value.
#[derive(Debug, PartialEq, Eq)]
pub enum ReturnType {
    ServiceRefMut(Identifier),
    Data(DataType),
}

/// Ghost model of [`ReturnType`].
pub enum SpecReturnType {
    ServiceRefMut(Seq<u8>),
    Data(SpecDataType),
}

impl View for ReturnType {
    type V = SpecReturnType;

    open spec fn view(&self) -> SpecReturnType {
        match self {
            ReturnType::ServiceRefMut(name) => SpecReturnType::ServiceRefMut(name@),
            ReturnType::Data(data_type) => SpecReturnType::Data(data_type@),
        }
    }
}

/// A record type: its fields in declaration order, names unique.
#[derive(Debug, PartialEq, Eq)]
pub struct Struct {
    pub fields: Vec<(Identifier, DataType)>,
}

/// Ghost model of [`Struct`].
#[verifier::ext_equal]
pub struct SpecStruct {
    pub fields: Seq<(Seq<u8>, SpecDataType)>,
}

impl View for Struct {
    type V = SpecStruct;

    open spec fn view(&self) -> SpecStruct {
        SpecStruct {
            fields: Seq::new(self.fields@.len(), |i: int| (self.fields@[i].0@, self.fields@[i].1@)),
        }
    }
}

/// One method: its non-self parameters in declaration order and its return
/// type. A method always takes `&self` first.
#[derive(Debug, PartialEq, Eq)]
pub struct Method {
    pub non_self_params: Vec<(Identifier, DataType)>,
    pub return_type: ReturnType,
}

/// Ghost model of [`Method`].
#[verifier::ext_equal]
pub struct SpecMethod {
    pub non_self_params: Seq<(Seq<u8>, SpecDataType)>,
    pub return_type: SpecReturnType,
}

impl View for Method {
    type V = SpecMethod;

    open spec fn view(&self) -> SpecMethod {
        SpecMethod {
            non_self_params: Seq::new(
                self.non_self_params@.len(),
                |i: int| (self.non_self_params@[i].0@, self.non_self_params@[i].1@),
            ),
            return_type: self.return_type@,
        }
    }
}

/// A service type: its methods in declaration order, names unique. The
/// i-th method has `MethodId` i.
#[derive(Debug, PartialEq, Eq)]
pub struct Service {
    pub methods: Vec<(Identifier, Method)>,
}

/// Ghost model of [`Service`].
#[verifier::ext_equal]
pub struct SpecService {
    pub methods: Seq<(Seq<u8>, SpecMethod)>,
}

impl View for Service {
    type V = SpecService;

    open spec fn view(&self) -> SpecService {
        SpecService {
            methods: Seq::new(
                self.methods@.len(),
                |i: int| (self.methods@[i].0@, self.methods@[i].1@),
            ),
        }
    }
}

/// A whole interface file: its record types and its service types, each in
/// declaration order with unique names.
#[derive(Debug, PartialEq, Eq)]
pub struct RpcInterface {
    pub structs: Vec<(Identifier, Struct)>,
    pub services: Vec<(Identifier, Service)>,
}

/// Ghost model of [`RpcInterface`].
#[verifier::ext_equal]
pub struct SpecRpcInterface {
    pub structs: Seq<(Seq<u8>, SpecStruct)>,
    pub services: Seq<(Seq<u8>, SpecService)>,
}

impl View for RpcInterface {
    type V = SpecRpcInterface;

    open spec fn view(&self) -> SpecRpcInterface {
        SpecRpcInterface {
            structs: Seq::new(self.structs@.len(), |i: int| (self.structs@[i].0@, self.structs@[i].1@)),
            services: Seq::new(
                self.services@.len(),
                |i: int| (self.services@[i].0@, self.services@[i].1@),
            ),
        }
    }
}

} // verus!
