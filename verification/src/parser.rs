//! The parser for the interface description language.
//!
//! Grammar, where `x*` is zero or more `x` and words in quotes are
//! literal:
//!
//! ```text
//! specification-document := definition*
//! definition  := struct-definition | service-definition
//! struct-definition  := "struct" identifier "{" struct-field* "}"
//! struct-field       := identifier ":" data-type ","
//! service-definition := "service" identifier "{" service-method* "}"
//! service-method := identifier "(" "&" "self" ("," identifier ":" data-type)* ")"
//!                   "->" return-type ";"
//! return-type := "&" "service" identifier | data-type
//! data-type   := "i32" | identifier
//! ```
//!
//! ASCII whitespace may stand between any two tokens. An identifier is an
//! ASCII letter followed by letters, digits and underscores, except the
//! reserved words `struct`, `service`, `self`, `mut`, `crate`, `super`
//! and `Self`. Duplicate names (of structs, services, or of fields or
//! methods within one definition) are rejected. The whole input must be
//! consumed.
//!
//! The `spec` parse functions are the grammar written as functions on byte
//! strings; each executable parser is proved to return exactly what its
//! `spec` counterpart denotes, or `None` where it denotes no parse.

use crate::interface::{
    DataType, Identifier, Method, ReturnType, RpcInterface, Service, SpecDataType, SpecMethod,
    SpecReturnType, SpecRpcInterface, SpecService, SpecStruct, Struct,
};
use vstd::prelude::*;
use vstd::slice::slice_to_vec;

verus! {

/// ASCII whitespace: space, tab, line feed, carriage return.
pub open spec fn spec_is_ws(c: u8) -> bool {
    c == 32 || c == 9 || c == 10 || c == 13
}

/// An ASCII letter.
pub open spec fn spec_is_alpha(c: u8) -> bool {
    (65 <= c && c <= 90) || (97 <= c && c <= 122)
}

/// A letter, digit or underscore: what may follow the first character of
/// an identifier.
pub open spec fn spec_is_ident_char(c: u8) -> bool {
    spec_is_alpha(c) || (48 <= c && c <= 57) || c == 95
}

/// The first position at or after `pos` that does not hold whitespace.
pub open spec fn spec_skip_ws(s: Seq<u8>, pos: int) -> int
    decreases s.len() - pos,
{
    if 0 <= pos < s.len() && spec_is_ws(s[pos]) {
        spec_skip_ws(s, pos + 1)
    } else {
        pos
    }
}


/// The first position at or after `pos` that does not hold an identifier
/// character.
pub open spec fn spec_ident_end(s: Seq<u8>, pos: int) -> int
    decreases s.len() - pos,
{
    if 0 <= pos < s.len() && spec_is_ident_char(s[pos]) {
        spec_ident_end(s, pos + 1)
    } else {
        pos
    }
}


/// The bytes of `struct`.
pub open spec fn spec_kw_struct() -> Seq<u8> {
    seq![115u8, 116u8, 114u8, 117u8, 99u8, 116u8]
}

/// The bytes of `service`.
pub open spec fn spec_kw_service() -> Seq<u8> {
    seq![115u8, 101u8, 114u8, 118u8, 105u8, 99u8, 101u8]
}

/// The bytes of `i32`.
pub open spec fn spec_kw_i32() -> Seq<u8> {
    seq![105u8, 51u8, 50u8]
}

/// The bytes of `self`.
pub open spec fn spec_kw_self() -> Seq<u8> {
    seq![115u8, 101u8, 108u8, 102u8]
}

/// The bytes of `mut`.
pub open spec fn spec_kw_mut() -> Seq<u8> {
    seq![109u8, 117u8, 116u8]
}

/// The bytes of `crate`.
pub open spec fn spec_kw_crate() -> Seq<u8> {
    seq![99u8, 114u8, 97u8, 116u8, 101u8]
}

/// The bytes of `super`.
pub open spec fn spec_kw_super() -> Seq<u8> {
    seq![115u8, 117u8, 112u8, 101u8, 114u8]
}

/// The bytes of `Self`.
pub open spec fn spec_kw_self_upper() -> Seq<u8> {
    seq![83u8, 101u8, 108u8, 102u8]
}

/// The bytes of `->`.
pub open spec fn spec_kw_arrow() -> Seq<u8> {
    seq![45u8, 62u8]
}

/// The words an identifier may not be. `crate`, `super` and `Self` are
/// reserved because the generated code could not use them as names.
pub open spec fn spec_is_reserved(w: Seq<u8>) -> bool {
    ||| w == spec_kw_struct()
    ||| w == spec_kw_service()
    ||| w == spec_kw_self()
    ||| w == spec_kw_mut()
    ||| w == spec_kw_crate()
    ||| w == spec_kw_super()
    ||| w == spec_kw_self_upper()
}

/// The literal `lit` stands at `pos`; the position just past it.
pub open spec fn spec_expect(s: Seq<u8>, pos: int, lit: Seq<u8>) -> Option<int> {
    if 0 <= pos && pos + lit.len() <= s.len() && s.subrange(pos, pos + lit.len()) == lit {
        Some(pos + lit.len())
    } else {
        None
    }
}

/// The identifier that starts at `pos`, if one does: its bytes and the
/// position just past it. Takes the longest possible run and rejects
/// reserved words.
pub open spec fn spec_parse_identifier(s: Seq<u8>, pos: int) -> Option<(Seq<u8>, int)> {
    if 0 <= pos < s.len() && spec_is_alpha(s[pos]) {
        let end = spec_ident_end(s, pos + 1);
        let w = s.subrange(pos, end);
        if spec_is_reserved(w) {
            None
        } else {
            Some((w, end))
        }
    } else {
        None
    }
}

/// The models of an association vector's entries, in order.
pub open spec fn spec_pair_views<T: View>(items: Seq<(Identifier, T)>) -> Seq<
    (Seq<u8>, <T as View>::V),
> {
    Seq::new(items.len(), |i: int| (items[i].0@, items[i].1@))
}

/// No two entries share a name.
pub open spec fn spec_names_unique<V>(items: Seq<(Seq<u8>, V)>) -> bool {
    forall|i: int, j: int| 0 <= i < j < items.len() ==> items[i].0 != items[j].0
}

/// Advance past whitespace.
fn skip_ws(bytes: &[u8], pos: usize) -> (r: usize)
    requires
        pos <= bytes@.len(),
    ensures
        r == spec_skip_ws(bytes@, pos as int),
        pos <= r <= bytes@.len(),
{
    let n = bytes.len();
    let mut cur = pos;
    loop
        invariant_except_break
            pos <= cur <= n,
            n == bytes@.len(),
            spec_skip_ws(bytes@, pos as int) == spec_skip_ws(bytes@, cur as int),
        ensures
            pos <= cur <= n,
            n == bytes@.len(),
            cur == spec_skip_ws(bytes@, pos as int),
        decreases n - cur,
    {
        if cur == n {
            break;
        }
        let c = bytes[cur];
        if !(c == 32 || c == 9 || c == 10 || c == 13) {
            break;
        }
        cur = cur + 1;
    }
    cur
}

/// Advance past identifier characters.
fn ident_end(bytes: &[u8], pos: usize) -> (r: usize)
    requires
        pos <= bytes@.len(),
    ensures
        r == spec_ident_end(bytes@, pos as int),
        pos <= r <= bytes@.len(),
{
    let n = bytes.len();
    let mut cur = pos;
    loop
        invariant_except_break
            pos <= cur <= n,
            n == bytes@.len(),
            spec_ident_end(bytes@, pos as int) == spec_ident_end(bytes@, cur as int),
        ensures
            pos <= cur <= n,
            n == bytes@.len(),
            cur == spec_ident_end(bytes@, pos as int),
        decreases n - cur,
    {
        if cur == n {
            break;
        }
        let c = bytes[cur];
        if !((65 <= c && c <= 90) || (97 <= c && c <= 122) || (48 <= c && c <= 57) || c == 95) {
            break;
        }
        cur = cur + 1;
    }
    cur
}

/// Whether `lit` stands at `pos` in `bytes`.
fn match_at(bytes: &[u8], pos: usize, lit: &Vec<u8>) -> (r: bool)
    requires
        pos <= bytes@.len(),
    ensures
        r == (spec_expect(bytes@, pos as int, lit@) is Some),
        r ==> spec_expect(bytes@, pos as int, lit@) == Some((pos + lit@.len()) as int),
{
    let m = lit.len();
    let n = bytes.len();
    if n - pos < m {
        return false;
    }
    let mut i: usize = 0;
    while i < m
        invariant
            i <= m,
            m == lit@.len(),
            n == bytes@.len(),
            pos + m <= n,
            forall|j: int| 0 <= j < i ==> bytes@[pos + j] == lit@[j],
        decreases m - i,
    {
        if bytes[pos + i] != lit[i] {
            proof {
                assert(bytes@.subrange(pos as int, pos + lit@.len())[i as int] != lit@[i as int]);
            }
            return false;
        }
        i = i + 1;
    }
    proof {
        assert(bytes@.subrange(pos as int, pos + lit@.len()) =~= lit@);
    }
    true
}

/// Whether two byte vectors hold the same bytes.
fn vec_eq(a: &Vec<u8>, b: &Vec<u8>) -> (r: bool)
    ensures
        r == (a@ == b@),
{
    if a.len() != b.len() {
        return false;
    }
    let r = match_at(a.as_slice(), 0, b);
    proof {
        assert(a@.subrange(0, b@.len() as int) =~= a@);
    }
    r
}

/// The bytes of `struct`.
fn kw_struct() -> (r: Vec<u8>)
    ensures
        r@ == spec_kw_struct(),
{
    let mut v: Vec<u8> = Vec::new();
    v.push(115u8);
    v.push(116u8);
    v.push(114u8);
    v.push(117u8);
    v.push(99u8);
    v.push(116u8);
    proof {
        assert(v@ =~= spec_kw_struct());
    }
    v
}

/// The bytes of `service`.
fn kw_service() -> (r: Vec<u8>)
    ensures
        r@ == spec_kw_service(),
{
    let mut v: Vec<u8> = Vec::new();
    v.push(115u8);
    v.push(101u8);
    v.push(114u8);
    v.push(118u8);
    v.push(105u8);
    v.push(99u8);
    v.push(101u8);
    proof {
        assert(v@ =~= spec_kw_service());
    }
    v
}

/// The bytes of `i32`.
fn kw_i32() -> (r: Vec<u8>)
    ensures
        r@ == spec_kw_i32(),
{
    let mut v: Vec<u8> = Vec::new();
    v.push(105u8);
    v.push(51u8);
    v.push(50u8);
    proof {
        assert(v@ =~= spec_kw_i32());
    }
    v
}

/// The bytes of `self`.
fn kw_self() -> (r: Vec<u8>)
    ensures
        r@ == spec_kw_self(),
{
    let mut v: Vec<u8> = Vec::new();
    v.push(115u8);
    v.push(101u8);
    v.push(108u8);
    v.push(102u8);
    proof {
        assert(v@ =~= spec_kw_self());
    }
    v
}

/// The bytes of `mut`.
fn kw_mut() -> (r: Vec<u8>)
    ensures
        r@ == spec_kw_mut(),
{
    let mut v: Vec<u8> = Vec::new();
    v.push(109u8);
    v.push(117u8);
    v.push(116u8);
    proof {
        assert(v@ =~= spec_kw_mut());
    }
    v
}

/// The bytes of `crate`.
fn kw_crate() -> (r: Vec<u8>)
    ensures
        r@ == spec_kw_crate(),
{
    let mut v: Vec<u8> = Vec::new();
    v.push(99u8);
    v.push(114u8);
    v.push(97u8);
    v.push(116u8);
    v.push(101u8);
    proof {
        assert(v@ =~= spec_kw_crate());
    }
    v
}

/// The bytes of `super`.
fn kw_super() -> (r: Vec<u8>)
    ensures
        r@ == spec_kw_super(),
{
    let mut v: Vec<u8> = Vec::new();
    v.push(115u8);
    v.push(117u8);
    v.push(112u8);
    v.push(101u8);
    v.push(114u8);
    proof {
        assert(v@ =~= spec_kw_super());
    }
    v
}

/// The bytes of `Self`.
fn kw_self_upper() -> (r: Vec<u8>)
    ensures
        r@ == spec_kw_self_upper(),
{
    let mut v: Vec<u8> = Vec::new();
    v.push(83u8);
    v.push(101u8);
    v.push(108u8);
    v.push(102u8);
    proof {
        assert(v@ =~= spec_kw_self_upper());
    }
    v
}

/// The bytes of `->`.
fn kw_arrow() -> (r: Vec<u8>)
    ensures
        r@ == spec_kw_arrow(),
{
    let mut v: Vec<u8> = Vec::new();
    v.push(45u8);
    v.push(62u8);
    proof {
        assert(v@ =~= spec_kw_arrow());
    }
    v
}

/// Whether a word is reserved.
fn is_reserved(w: &Vec<u8>) -> (r: bool)
    ensures
        r == spec_is_reserved(w@),
{
    if vec_eq(w, &kw_struct()) {
        return true;
    }
    if vec_eq(w, &kw_service()) {
        return true;
    }
    if vec_eq(w, &kw_self()) {
        return true;
    }
    if vec_eq(w, &kw_mut()) {
        return true;
    }
    if vec_eq(w, &kw_crate()) {
        return true;
    }
    if vec_eq(w, &kw_super()) {
        return true;
    }
    if vec_eq(w, &kw_self_upper()) {
        return true;
    }
    false
}

/// Parse an identifier at `pos`.
pub fn parse_identifier(bytes: &[u8], pos: usize) -> (r: Option<(Identifier, usize)>)
    requires
        pos <= bytes@.len(),
    ensures
        match spec_parse_identifier(bytes@, pos as int) {
            Some((w, end)) => r matches Some((id, p)) && id@ == w && p == end,
            None => r is None,
        },
        r matches Some(x) ==> x.1 <= bytes@.len(),
{
    if pos == bytes.len() {
        return None;
    }
    let c = bytes[pos];
    if !((65 <= c && c <= 90) || (97 <= c && c <= 122)) {
        return None;
    }
    let end = ident_end(bytes, pos + 1);
    let word = slice_to_vec(&bytes[pos..end]);
    if is_reserved(&word) {
        None
    } else {
        Some((Identifier(word), end))
    }
}

/// Whether no two entries of an association vector share a name.
fn names_unique<T: View>(items: &Vec<(Identifier, T)>) -> (r: bool)
    ensures
        r == spec_names_unique(spec_pair_views(items@)),
{
    let n = items.len();
    let mut i: usize = 1;
    while i < n
        invariant
            1 <= i <= n || n == 0,
            n == items@.len(),
            forall|x: int, y: int| 0 <= x < y < i ==> items@[x].0@ != items@[y].0@,
        decreases n - i,
    {
        let mut j: usize = 0;
        while j < i
            invariant
                j <= i < n,
                n == items@.len(),
                forall|x: int, y: int| 0 <= x < y < i ==> items@[x].0@ != items@[y].0@,
                forall|x: int| 0 <= x < j ==> items@[x].0@ != items@[i as int].0@,
            decreases i - j,
        {
            if vec_eq(&items[j].0.0, &items[i].0.0) {
                proof {
                    assert(spec_pair_views(items@)[j as int].0 == spec_pair_views(
                        items@,
                    )[i as int].0);
                }
                return false;
            }
            j = j + 1;
        }
        i = i + 1;
    }
    proof {
        assert forall|x: int, y: int|
            0 <= x < y < spec_pair_views(items@).len() implies spec_pair_views(items@)[x].0
            != spec_pair_views(items@)[y].0 by {
            assert(items@[x].0@ != items@[y].0@);
        }
    }
    true
}


/// The data type that starts at `pos`: `i32`, or a record type name.
pub open spec fn spec_parse_data_type(s: Seq<u8>, pos: int) -> Option<(SpecDataType, int)> {
    match spec_expect(s, pos, spec_kw_i32()) {
        Some(p) => Some((SpecDataType::I32, p)),
        None => match spec_parse_identifier(s, pos) {
            Some((w, end)) => Some((SpecDataType::Struct(w), end)),
            None => None,
        },
    }
}

/// The return type that starts at `pos`: `& service Name`, or a data
/// type.
pub open spec fn spec_parse_return_type(s: Seq<u8>, pos: int) -> Option<(SpecReturnType, int)> {
    if 0 <= pos < s.len() && s[pos] == 38 {
        let p1 = spec_skip_ws(s, pos + 1);
        match spec_expect(s, p1, spec_kw_service()) {
            Some(p2) => if p2 < s.len() && spec_is_ws(s[p2]) {
                let p3 = spec_skip_ws(s, p2);
                match spec_parse_identifier(s, p3) {
                    Some((w, end)) => Some((SpecReturnType::ServiceRefMut(w), end)),
                    None => None,
                }
            } else {
                None
            },
            None => None,
        }
    } else {
        match spec_parse_data_type(s, pos) {
            Some((dt, end)) => Some((SpecReturnType::Data(dt), end)),
            None => None,
        }
    }
}

/// One `, name : type` parameter, starting at its comma.
pub open spec fn spec_parse_param(s: Seq<u8>, pos: int) -> Option<((Seq<u8>, SpecDataType), int)> {
    if 0 <= pos < s.len() && s[pos] == 44 {
        let p1 = spec_skip_ws(s, pos + 1);
        match spec_parse_identifier(s, p1) {
            Some((nm, p2)) => {
                let p3 = spec_skip_ws(s, p2);
                if p3 < s.len() && s[p3] == 58 {
                    let p4 = spec_skip_ws(s, p3 + 1);
                    match spec_parse_data_type(s, p4) {
                        Some((dt, p5)) => Some(((nm, dt), p5)),
                        None => None,
                    }
                } else {
                    None
                }
            },
            None => None,
        }
    } else {
        None
    }
}

/// As many parameters as stand at `pos`, each padded by whitespace; ends
/// just past the trailing whitespace.
pub open spec fn spec_parse_params(s: Seq<u8>, pos: int) -> Option<
    (Seq<(Seq<u8>, SpecDataType)>, int),
>
    decreases s.len() - pos,
{
    let p = spec_skip_ws(s, pos);
    match spec_parse_param(s, p) {
        Some((prm, p2)) => if pos < p2 <= s.len() {
            match spec_parse_params(s, p2) {
                Some((rest, end)) => Some((seq![prm] + rest, end)),
                None => None,
            }
        } else {
            None
        },
        None => Some((Seq::empty(), p)),
    }
}

/// One `name : type ,` field.
pub open spec fn spec_parse_struct_field(s: Seq<u8>, pos: int) -> Option<
    ((Seq<u8>, SpecDataType), int),
> {
    match spec_parse_identifier(s, pos) {
        Some((nm, p1)) => {
            let p2 = spec_skip_ws(s, p1);
            if p2 < s.len() && s[p2] == 58 {
                let p3 = spec_skip_ws(s, p2 + 1);
                match spec_parse_data_type(s, p3) {
                    Some((dt, p4)) => {
                        let p5 = spec_skip_ws(s, p4);
                        if p5 < s.len() && s[p5] == 44 {
                            Some(((nm, dt), p5 + 1))
                        } else {
                            None
                        }
                    },
                    None => None,
                }
            } else {
                None
            }
        },
        None => None,
    }
}

/// As many fields as stand at `pos`, each padded by whitespace.
pub open spec fn spec_parse_struct_fields(s: Seq<u8>, pos: int) -> Option<
    (Seq<(Seq<u8>, SpecDataType)>, int),
>
    decreases s.len() - pos,
{
    let p = spec_skip_ws(s, pos);
    match spec_parse_struct_field(s, p) {
        Some((fld, p2)) => if pos < p2 <= s.len() {
            match spec_parse_struct_fields(s, p2) {
                Some((rest, end)) => Some((seq![fld] + rest, end)),
                None => None,
            }
        } else {
            None
        },
        None => Some((Seq::empty(), p)),
    }
}

/// One whole `struct` definition starting at `pos`, with unique field
/// names.
pub open spec fn spec_parse_struct(s: Seq<u8>, pos: int) -> Option<((Seq<u8>, SpecStruct), int)> {
    match spec_expect(s, pos, spec_kw_struct()) {
        Some(p1) => if p1 < s.len() && spec_is_ws(s[p1]) {
            let p2 = spec_skip_ws(s, p1);
            match spec_parse_identifier(s, p2) {
                Some((nm, p3)) => {
                    let p4 = spec_skip_ws(s, p3);
                    if p4 < s.len() && s[p4] == 123 {
                        match spec_parse_struct_fields(s, p4 + 1) {
                            Some((flds, p5)) => if p5 < s.len() && s[p5] == 125 {
                                if spec_names_unique(flds) {
                                    Some(((nm, SpecStruct { fields: flds }), p5 + 1))
                                } else {
                                    None
                                }
                            } else {
                                None
                            },
                            None => None,
                        }
                    } else {
                        None
                    }
                },
                None => None,
            }
        } else {
            None
        },
        None => None,
    }
}

/// One `name ( & self params ) -> return-type ;` method.
pub open spec fn spec_parse_method(s: Seq<u8>, pos: int) -> Option<((Seq<u8>, SpecMethod), int)> {
    match spec_parse_identifier(s, pos) {
        Some((nm, p1)) => {
            let p2 = spec_skip_ws(s, p1);
            if p2 < s.len() && s[p2] == 40 {
                let p3 = spec_skip_ws(s, p2 + 1);
                if p3 < s.len() && s[p3] == 38 {
                    let p4 = spec_skip_ws(s, p3 + 1);
                    match spec_expect(s, p4, spec_kw_self()) {
                        Some(p5) => match spec_parse_params(s, p5) {
                            Some((params, p6)) => if p6 < s.len() && s[p6] == 41 {
                                let p7 = spec_skip_ws(s, p6 + 1);
                                match spec_expect(s, p7, spec_kw_arrow()) {
                                    Some(p8) => {
                                        let p9 = spec_skip_ws(s, p8);
                                        match spec_parse_return_type(s, p9) {
                                            Some((rt, p10)) => {
                                                let p11 = spec_skip_ws(s, p10);
                                                if p11 < s.len() && s[p11] == 59 {
                                                    Some(
                                                        (
                                                            (
                                                                nm,
                                                                SpecMethod {
                                                                    non_self_params: params,
                                                                    return_type: rt,
                                                                },
                                                            ),
                                                            p11 + 1,
                                                        ),
                                                    )
                                                } else {
                                                    None
                                                }
                                            },
                                            None => None,
                                        }
                                    },
                                    None => None,
                                }
                            } else {
                                None
                            },
                            None => None,
                        },
                        None => None,
                    }
                } else {
                    None
                }
            } else {
                None
            }
        },
        None => None,
    }
}

/// As many methods as stand at `pos`, each padded by whitespace.
pub open spec fn spec_parse_methods(s: Seq<u8>, pos: int) -> Option<
    (Seq<(Seq<u8>, SpecMethod)>, int),
>
    decreases s.len() - pos,
{
    let p = spec_skip_ws(s, pos);
    match spec_parse_method(s, p) {
        Some((m, p2)) => if pos < p2 <= s.len() {
            match spec_parse_methods(s, p2) {
                Some((rest, end)) => Some((seq![m] + rest, end)),
                None => None,
            }
        } else {
            None
        },
        None => Some((Seq::empty(), p)),
    }
}

/// One whole `service` definition starting at `pos`, with unique method
/// names.
pub open spec fn spec_parse_service(s: Seq<u8>, pos: int) -> Option<((Seq<u8>, SpecService), int)> {
    match spec_expect(s, pos, spec_kw_service()) {
        Some(p1) => if p1 < s.len() && spec_is_ws(s[p1]) {
            let p2 = spec_skip_ws(s, p1);
            match spec_parse_identifier(s, p2) {
                Some((nm, p3)) => {
                    let p4 = spec_skip_ws(s, p3);
                    if p4 < s.len() && s[p4] == 123 {
                        match spec_parse_methods(s, p4 + 1) {
                            Some((ms, p5)) => if p5 < s.len() && s[p5] == 125 {
                                if spec_names_unique(ms) {
                                    Some(((nm, SpecService { methods: ms }), p5 + 1))
                                } else {
                                    None
                                }
                            } else {
                                None
                            },
                            None => None,
                        }
                    } else {
                        None
                    }
                },
                None => None,
            }
        } else {
            None
        },
        None => None,
    }
}

/// As many definitions as stand at `pos`, each padded by whitespace; a
/// struct definition is tried first, then a service definition.
pub open spec fn spec_parse_definitions(s: Seq<u8>, pos: int) -> Option<
    (Seq<(Seq<u8>, SpecStruct)>, Seq<(Seq<u8>, SpecService)>, int),
>
    decreases s.len() - pos,
{
    let p = spec_skip_ws(s, pos);
    match spec_parse_struct(s, p) {
        Some((st, p2)) => if pos < p2 <= s.len() {
            match spec_parse_definitions(s, p2) {
                Some((sts, svs, end)) => Some((seq![st] + sts, svs, end)),
                None => None,
            }
        } else {
            None
        },
        None => match spec_parse_service(s, p) {
            Some((sv, p2)) => if pos < p2 <= s.len() {
                match spec_parse_definitions(s, p2) {
                    Some((sts, svs, end)) => Some((sts, seq![sv] + svs, end)),
                    None => None,
                }
            } else {
                None
            },
            None => Some((Seq::empty(), Seq::empty(), p)),
        },
    }
}

/// A whole interface file: every definition, nothing left over, and no
/// duplicate struct or service names.
pub open spec fn spec_parse_interface(s: Seq<u8>) -> Option<SpecRpcInterface> {
    match spec_parse_definitions(s, 0) {
        Some((sts, svs, end)) => if end == s.len() && spec_names_unique(sts) && spec_names_unique(
            svs,
        ) {
            Some(SpecRpcInterface { structs: sts, services: svs })
        } else {
            None
        },
        None => None,
    }
}


/// Parse a data type at `pos`.
pub fn parse_data_type(bytes: &[u8], pos: usize) -> (r: Option<(DataType, usize)>)
    requires
        pos <= bytes@.len(),
    ensures
        match spec_parse_data_type(bytes@, pos as int) {
            Some((dt, end)) => r matches Some((d, p)) && d@ == dt && p == end,
            None => r is None,
        },
        r matches Some(x) ==> x.1 <= bytes@.len(),
{
    let n = bytes.len();
    if match_at(bytes, pos, &kw_i32()) {
        proof {
            assert(pos + 3 <= n);
        }
        Some((DataType::I32, pos + 3))
    } else {
        match parse_identifier(bytes, pos) {
            Some((name, end)) => Some((DataType::Struct(name), end)),
            None => None,
        }
    }
}

/// Parse a return type at `pos`.
pub fn parse_return_type(bytes: &[u8], pos: usize) -> (r: Option<(ReturnType, usize)>)
    requires
        pos <= bytes@.len(),
    ensures
        match spec_parse_return_type(bytes@, pos as int) {
            Some((rt, end)) => r matches Some((t, p)) && t@ == rt && p == end,
            None => r is None,
        },
        r matches Some(x) ==> x.1 <= bytes@.len(),
{
    let n = bytes.len();
    if pos < n && bytes[pos] == 38 {
        let p1 = skip_ws(bytes, pos + 1);
        if !match_at(bytes, p1, &kw_service()) {
            return None;
        }
        proof {
            assert(p1 + 7 <= n);
        }
        let p2 = p1 + 7;
        if !(p2 < bytes.len()) {
            return None;
        }
        let c = bytes[p2];
        if !(c == 32 || c == 9 || c == 10 || c == 13) {
            return None;
        }
        let p3 = skip_ws(bytes, p2);
        match parse_identifier(bytes, p3) {
            Some((name, end)) => Some((ReturnType::ServiceRefMut(name), end)),
            None => None,
        }
    } else {
        match parse_data_type(bytes, pos) {
            Some((dt, end)) => Some((ReturnType::Data(dt), end)),
            None => None,
        }
    }
}

/// Parse one `, name : type` parameter at `pos`.
pub fn parse_param(bytes: &[u8], pos: usize) -> (r: Option<((Identifier, DataType), usize)>)
    requires
        pos <= bytes@.len(),
    ensures
        match spec_parse_param(bytes@, pos as int) {
            Some(((nm, dt), end)) => r matches Some(((id, d), p)) && id@ == nm && d@ == dt && p
                == end,
            None => r is None,
        },
        r matches Some(x) ==> x.1 <= bytes@.len(),
{
    if !(pos < bytes.len() && bytes[pos] == 44) {
        return None;
    }
    let p1 = skip_ws(bytes, pos + 1);
    let (name, p2) = match parse_identifier(bytes, p1) {
        Some(x) => x,
        None => {
            return None;
        },
    };
    let p3 = skip_ws(bytes, p2);
    if !(p3 < bytes.len() && bytes[p3] == 58) {
        return None;
    }
    let p4 = skip_ws(bytes, p3 + 1);
    match parse_data_type(bytes, p4) {
        Some((dt, p5)) => Some(((name, dt), p5)),
        None => None,
    }
}

/// Parse as many parameters as stand at `pos`.
pub fn parse_params(bytes: &[u8], pos: usize) -> (r: Option<(Vec<(Identifier, DataType)>, usize)>)
    requires
        pos <= bytes@.len(),
    ensures
        match spec_parse_params(bytes@, pos as int) {
            Some((prms, end)) => r matches Some((v, p)) && spec_pair_views(v@) == prms && p == end,
            None => r is None,
        },
        r matches Some(x) ==> x.1 <= bytes@.len(),
    decreases bytes@.len() - pos,
{
    let p = skip_ws(bytes, pos);
    match parse_param(bytes, p) {
        Some((prm, p2)) => {
            if pos < p2 && p2 <= bytes.len() {
                match parse_params(bytes, p2) {
                    Some((mut rest, end)) => {
                        let ghost prmv = (prm.0@, prm.1@);
                        let ghost rest0 = rest@;
                        rest.insert(0, prm);
                        proof {
                            assert(rest@ =~= seq![rest@[0]] + rest0);
                            assert(spec_pair_views(rest@) =~= seq![prmv] + spec_pair_views(rest0));
                        }
                        Some((rest, end))
                    },
                    None => None,
                }
            } else {
                None
            }
        },
        None => {
            let empty: Vec<(Identifier, DataType)> = Vec::new();
            proof {
                assert(spec_pair_views(empty@) =~= Seq::<(Seq<u8>, SpecDataType)>::empty());
            }
            Some((empty, p))
        },
    }
}

/// Parse one `name : type ,` field at `pos`.
pub fn parse_struct_field(bytes: &[u8], pos: usize) -> (r: Option<((Identifier, DataType), usize)>)
    requires
        pos <= bytes@.len(),
    ensures
        match spec_parse_struct_field(bytes@, pos as int) {
            Some(((nm, dt), end)) => r matches Some(((id, d), p)) && id@ == nm && d@ == dt && p
                == end,
            None => r is None,
        },
        r matches Some(x) ==> x.1 <= bytes@.len(),
{
    let (name, p1) = match parse_identifier(bytes, pos) {
        Some(x) => x,
        None => {
            return None;
        },
    };
    let p2 = skip_ws(bytes, p1);
    if !(p2 < bytes.len() && bytes[p2] == 58) {
        return None;
    }
    let p3 = skip_ws(bytes, p2 + 1);
    let (dt, p4) = match parse_data_type(bytes, p3) {
        Some(x) => x,
        None => {
            return None;
        },
    };
    let p5 = skip_ws(bytes, p4);
    if !(p5 < bytes.len() && bytes[p5] == 44) {
        return None;
    }
    Some(((name, dt), p5 + 1))
}

/// Parse as many fields as stand at `pos`.
pub fn parse_struct_fields(bytes: &[u8], pos: usize) -> (r: Option<
    (Vec<(Identifier, DataType)>, usize),
>)
    requires
        pos <= bytes@.len(),
    ensures
        match spec_parse_struct_fields(bytes@, pos as int) {
            Some((flds, end)) => r matches Some((v, p)) && spec_pair_views(v@) == flds && p == end,
            None => r is None,
        },
        r matches Some(x) ==> x.1 <= bytes@.len(),
    decreases bytes@.len() - pos,
{
    let p = skip_ws(bytes, pos);
    match parse_struct_field(bytes, p) {
        Some((fld, p2)) => {
            if pos < p2 && p2 <= bytes.len() {
                match parse_struct_fields(bytes, p2) {
                    Some((mut rest, end)) => {
                        let ghost fldv = (fld.0@, fld.1@);
                        let ghost rest0 = rest@;
                        rest.insert(0, fld);
                        proof {
                            assert(rest@ =~= seq![rest@[0]] + rest0);
                            assert(spec_pair_views(rest@) =~= seq![fldv] + spec_pair_views(rest0));
                        }
                        Some((rest, end))
                    },
                    None => None,
                }
            } else {
                None
            }
        },
        None => {
            let empty: Vec<(Identifier, DataType)> = Vec::new();
            proof {
                assert(spec_pair_views(empty@) =~= Seq::<(Seq<u8>, SpecDataType)>::empty());
            }
            Some((empty, p))
        },
    }
}

/// Parse one whole `struct` definition at `pos`.
pub fn parse_struct(bytes: &[u8], pos: usize) -> (r: Option<((Identifier, Struct), usize)>)
    requires
        pos <= bytes@.len(),
    ensures
        match spec_parse_struct(bytes@, pos as int) {
            Some(((nm, st), end)) => r matches Some(((id, s), p)) && id@ == nm && s@ == st && p
                == end,
            None => r is None,
        },
        r matches Some(x) ==> x.1 <= bytes@.len(),
{
    let n = bytes.len();
    if !match_at(bytes, pos, &kw_struct()) {
        return None;
    }
    proof {
        assert(pos + 6 <= n);
    }
    let p1 = pos + 6;
    if !(p1 < bytes.len()) {
        return None;
    }
    let c = bytes[p1];
    if !(c == 32 || c == 9 || c == 10 || c == 13) {
        return None;
    }
    let p2 = skip_ws(bytes, p1);
    let (name, p3) = match parse_identifier(bytes, p2) {
        Some(x) => x,
        None => {
            return None;
        },
    };
    let p4 = skip_ws(bytes, p3);
    if !(p4 < bytes.len() && bytes[p4] == 123) {
        return None;
    }
    let (fields, p5) = match parse_struct_fields(bytes, p4 + 1) {
        Some(x) => x,
        None => {
            return None;
        },
    };
    if !(p5 < bytes.len() && bytes[p5] == 125) {
        return None;
    }
    if !names_unique(&fields) {
        return None;
    }
    let st = Struct { fields };
    proof {
        assert(st@.fields =~= spec_parse_struct(bytes@, pos as int)->Some_0.0.1.fields);
    }
    Some(((name, st), p5 + 1))
}

/// Parse one whole method at `pos`.
pub fn parse_method(bytes: &[u8], pos: usize) -> (r: Option<((Identifier, Method), usize)>)
    requires
        pos <= bytes@.len(),
    ensures
        match spec_parse_method(bytes@, pos as int) {
            Some(((nm, m), end)) => r matches Some(((id, mm), p)) && id@ == nm && mm@ == m && p
                == end,
            None => r is None,
        },
        r matches Some(x) ==> x.1 <= bytes@.len(),
{
    let n = bytes.len();
    let (name, p1) = match parse_identifier(bytes, pos) {
        Some(x) => x,
        None => {
            return None;
        },
    };
    let p2 = skip_ws(bytes, p1);
    if !(p2 < bytes.len() && bytes[p2] == 40) {
        return None;
    }
    let p3 = skip_ws(bytes, p2 + 1);
    if !(p3 < bytes.len() && bytes[p3] == 38) {
        return None;
    }
    let p4 = skip_ws(bytes, p3 + 1);
    if !match_at(bytes, p4, &kw_self()) {
        return None;
    }
    proof {
        assert(p4 + 4 <= n);
    }
    let p5 = p4 + 4;
    let (params, p6) = match parse_params(bytes, p5) {
        Some(x) => x,
        None => {
            return None;
        },
    };
    if !(p6 < bytes.len() && bytes[p6] == 41) {
        return None;
    }
    let p7 = skip_ws(bytes, p6 + 1);
    if !match_at(bytes, p7, &kw_arrow()) {
        return None;
    }
    proof {
        assert(p7 + 2 <= n);
    }
    let p8 = p7 + 2;
    let p9 = skip_ws(bytes, p8);
    let (rt, p10) = match parse_return_type(bytes, p9) {
        Some(x) => x,
        None => {
            return None;
        },
    };
    let p11 = skip_ws(bytes, p10);
    if !(p11 < bytes.len() && bytes[p11] == 59) {
        return None;
    }
    let m = Method { non_self_params: params, return_type: rt };
    proof {
        assert(m@.non_self_params =~= spec_parse_method(
            bytes@,
            pos as int,
        )->Some_0.0.1.non_self_params);
        assert(m@ =~= spec_parse_method(bytes@, pos as int)->Some_0.0.1);
    }
    Some(((name, m), p11 + 1))
}

/// Parse as many methods as stand at `pos`.
pub fn parse_methods(bytes: &[u8], pos: usize) -> (r: Option<(Vec<(Identifier, Method)>, usize)>)
    requires
        pos <= bytes@.len(),
    ensures
        match spec_parse_methods(bytes@, pos as int) {
            Some((ms, end)) => r matches Some((v, p)) && spec_pair_views(v@) == ms && p == end,
            None => r is None,
        },
        r matches Some(x) ==> x.1 <= bytes@.len(),
    decreases bytes@.len() - pos,
{
    let p = skip_ws(bytes, pos);
    match parse_method(bytes, p) {
        Some((m, p2)) => {
            if pos < p2 && p2 <= bytes.len() {
                match parse_methods(bytes, p2) {
                    Some((mut rest, end)) => {
                        let ghost mv = (m.0@, m.1@);
                        let ghost rest0 = rest@;
                        rest.insert(0, m);
                        proof {
                            assert(rest@ =~= seq![rest@[0]] + rest0);
                            assert(spec_pair_views(rest@) =~= seq![mv] + spec_pair_views(rest0));
                        }
                        Some((rest, end))
                    },
                    None => None,
                }
            } else {
                None
            }
        },
        None => {
            let empty: Vec<(Identifier, Method)> = Vec::new();
            proof {
                assert(spec_pair_views(empty@) =~= Seq::<(Seq<u8>, SpecMethod)>::empty());
            }
            Some((empty, p))
        },
    }
}

/// Parse one whole `service` definition at `pos`.
pub fn parse_service(bytes: &[u8], pos: usize) -> (r: Option<((Identifier, Service), usize)>)
    requires
        pos <= bytes@.len(),
    ensures
        match spec_parse_service(bytes@, pos as int) {
            Some(((nm, sv), end)) => r matches Some(((id, s), p)) && id@ == nm && s@ == sv && p
                == end,
            None => r is None,
        },
        r matches Some(x) ==> x.1 <= bytes@.len(),
{
    let n = bytes.len();
    if !match_at(bytes, pos, &kw_service()) {
        return None;
    }
    proof {
        assert(pos + 7 <= n);
    }
    let p1 = pos + 7;
    if !(p1 < bytes.len()) {
        return None;
    }
    let c = bytes[p1];
    if !(c == 32 || c == 9 || c == 10 || c == 13) {
        return None;
    }
    let p2 = skip_ws(bytes, p1);
    let (name, p3) = match parse_identifier(bytes, p2) {
        Some(x) => x,
        None => {
            return None;
        },
    };
    let p4 = skip_ws(bytes, p3);
    if !(p4 < bytes.len() && bytes[p4] == 123) {
        return None;
    }
    let (methods, p5) = match parse_methods(bytes, p4 + 1) {
        Some(x) => x,
        None => {
            return None;
        },
    };
    if !(p5 < bytes.len() && bytes[p5] == 125) {
        return None;
    }
    if !names_unique(&methods) {
        return None;
    }
    let sv = Service { methods };
    proof {
        assert(sv@.methods =~= spec_parse_service(bytes@, pos as int)->Some_0.0.1.methods);
    }
    Some(((name, sv), p5 + 1))
}

/// Parse every definition from `pos` on.
pub fn parse_definitions(bytes: &[u8], pos: usize) -> (r: Option<
    (Vec<(Identifier, Struct)>, Vec<(Identifier, Service)>, usize),
>)
    requires
        pos <= bytes@.len(),
    ensures
        match spec_parse_definitions(bytes@, pos as int) {
            Some((sts, svs, end)) => r matches Some((vst, vsv, p)) && spec_pair_views(vst@) == sts
                && spec_pair_views(vsv@) == svs && p == end,
            None => r is None,
        },
        r matches Some(x) ==> x.2 <= bytes@.len(),
    decreases bytes@.len() - pos,
{
    let p = skip_ws(bytes, pos);
    match parse_struct(bytes, p) {
        Some((st, p2)) => {
            if pos < p2 && p2 <= bytes.len() {
                match parse_definitions(bytes, p2) {
                    Some((mut sts, svs, end)) => {
                        let ghost stv = (st.0@, st.1@);
                        let ghost sts0 = sts@;
                        sts.insert(0, st);
                        proof {
                            assert(sts@ =~= seq![sts@[0]] + sts0);
                            assert(spec_pair_views(sts@) =~= seq![stv] + spec_pair_views(sts0));
                        }
                        Some((sts, svs, end))
                    },
                    None => None,
                }
            } else {
                None
            }
        },
        None => {
            match parse_service(bytes, p) {
                Some((sv, p2)) => {
                    if pos < p2 && p2 <= bytes.len() {
                        match parse_definitions(bytes, p2) {
                            Some((sts, mut svs, end)) => {
                                let ghost svv = (sv.0@, sv.1@);
                                let ghost svs0 = svs@;
                                svs.insert(0, sv);
                                proof {
                                    assert(svs@ =~= seq![svs@[0]] + svs0);
                                    assert(spec_pair_views(svs@) =~= seq![svv] + spec_pair_views(
                                        svs0,
                                    ));
                                }
                                Some((sts, svs, end))
                            },
                            None => None,
                        }
                    } else {
                        None
                    }
                },
                None => {
                    let sts: Vec<(Identifier, Struct)> = Vec::new();
                    let svs: Vec<(Identifier, Service)> = Vec::new();
                    proof {
                        assert(spec_pair_views(sts@) =~= Seq::<(Seq<u8>, SpecStruct)>::empty());
                        assert(spec_pair_views(svs@) =~= Seq::<(Seq<u8>, SpecService)>::empty());
                    }
                    Some((sts, svs, p))
                },
            }
        },
    }
}

/// Parse a whole interface file. The entire input must be one valid
/// specification document; anything else yields `None`.
pub fn parse_interface(input: &[u8]) -> (r: Option<RpcInterface>)
    ensures
        match spec_parse_interface(input@) {
            Some(m) => r matches Some(ast) && ast@ == m,
            None => r is None,
        },
{
    match parse_definitions(input, 0) {
        Some((structs, services, end)) => {
            if end != input.len() {
                return None;
            }
            if !names_unique(&structs) {
                return None;
            }
            if !names_unique(&services) {
                return None;
            }
            let ast = RpcInterface { structs, services };
            proof {
                assert(ast@.structs =~= spec_parse_interface(input@)->Some_0.structs);
                assert(ast@.services =~= spec_parse_interface(input@)->Some_0.services);
                assert(ast@ =~= spec_parse_interface(input@)->Some_0);
            }
            Some(ast)
        },
        None => None,
    }
}

} // verus!
