use vstd::prelude::*;

use crate::mods::qot_common::{spec_sub_type_code, Security, SubType};
use crate::mods::qot_sub::{C2s, Request};

verus! {

/// The Sub request that subscribes to the feeds `sub_types` of the security
/// `code` on `market`, registers for their pushes and asks for a first push.
pub fn build_sub_request(market: i32, code: String, sub_types: Vec<SubType>) -> (r: Request)
    ensures
        r.c2s.security_list@.len() == 1,
        r.c2s.security_list@[0].market == market,
        r.c2s.security_list@[0].code@ == code@,
        r.c2s.sub_type_list@.len() == sub_types@.len(),
        forall|i: int|
            0 <= i < sub_types@.len() ==> #[trigger] r.c2s.sub_type_list@[i] == spec_sub_type_code(
                sub_types@[i],
            ),
        r.c2s.is_sub_or_un_sub,
        r.c2s.is_reg_or_un_reg_push == Some(true),
        r.c2s.reg_push_rehab_type_list@.len() == 0,
        r.c2s.is_first_push == Some(true),
        r.c2s.is_unsub_all.is_none(),
        r.c2s.is_sub_order_book_detail.is_none(),
        r.c2s.extended_time.is_none(),
        r.c2s.session.is_none(),
{
    let mut codes: Vec<i32> = Vec::new();
    let mut i: usize = 0;
    while i < sub_types.len()
        invariant
            0 <= i <= sub_types@.len(),
            codes@.len() == i,
            forall|j: int| 0 <= j < i ==> #[trigger] codes@[j] == spec_sub_type_code(sub_types@[j]),
        decreases sub_types@.len() - i,
    {
        codes.push(sub_types[i].code());
        i = i + 1;
    }
    let mut security_list: Vec<Security> = Vec::new();
    security_list.push(Security { market, code });
    let c2s = C2s {
        security_list,
        sub_type_list: codes,
        is_sub_or_un_sub: true,
        is_reg_or_un_reg_push: Some(true),
        reg_push_rehab_type_list: Vec::new(),
        is_first_push: Some(true),
        is_unsub_all: None,
        is_sub_order_book_detail: None,
        extended_time: None,
        session: None,
    };
    Request { c2s }
}

} // verus!
