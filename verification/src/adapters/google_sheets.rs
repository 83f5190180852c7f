//! The row that the first storage interface appends to the sheet.

use vstd::prelude::*;

use crate::adapters::GroupedData;

verus! {

/// The cells of the row appended for `data`, in the order quote, quotee,
/// receiver, quoter. A missing receiver is written as an empty cell, so the
/// quoter stays in its own column.
pub fn append_row(data: &GroupedData) -> (res: Vec<String>)
    ensures
        res@.len() == 4,
        res@[0]@ == data.quote@,
        res@[1]@ == data.quotee@,
        res@[2]@ == match data.receiver {
            Some(r) => r@,
            None => Seq::<char>::empty(),
        },
        res@[3]@ == data.quoter@,
{
    let mut row: Vec<String> = Vec::new();
    row.push(String::from_str(data.quote));
    row.push(String::from_str(data.quotee));
    row.push(
        match data.receiver {
            Some(r) => String::from_str(r),
            None => String::new(),
        },
    );
    row.push(String::from_str(data.quoter));
    row
}

} // verus!
