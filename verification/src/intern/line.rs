//! The text of one bodyfile line.

use vstd::prelude::*;
use bodyfile::Bodyfile3Line;
use crate::text::count_char;
use crate::text::decimal;
use crate::text::lemma_count_char_add;
use crate::text::lemma_count_char_single;
use crate::text::lemma_decimal_has_digits_only;
use crate::text::signed_decimal;

verus! {

/// The separator of fields.
pub open spec fn bar() -> Seq<char> {
    seq!['|']
}

/// The field that holds a zero: the checksum, the user and the group of
/// every line.
pub open spec fn zero() -> Seq<char> {
    seq!['0']
}

/// The text of a line in the bodyfile format of version 3: eleven fields
/// with a bar between each two. The fields are the checksum, the name, the
/// inode, the mode, the user, the group, the size and four times.
pub open spec fn line_text(
    name: Seq<char>,
    inode: Seq<char>,
    mode: Seq<char>,
    size: int,
    atime: int,
    mtime: int,
    ctime: int,
    crtime: int,
) -> Seq<char> {
    zero() + bar() + name + bar() + inode + bar() + mode + bar() + zero() + bar() + zero() + bar()
        + decimal(size as nat) + bar() + signed_decimal(atime) + bar() + signed_decimal(mtime)
        + bar() + signed_decimal(ctime) + bar() + signed_decimal(crtime)
}

/// `bodyfile::Bodyfile3Line::new`, the setters `with_owned_name`,
/// `with_owned_inode`, `with_mode`, `with_size`, `with_atime`, `with_mtime`,
/// `with_ctime` and `with_crtime`, and `to_string`.
///
/// A new line has the checksum "0" and the user and group 0. The setters
/// store what they are given. `to_string` writes the eleven fields in
/// their order with a bar between each two, the numbers in decimal.
#[verifier::external_body]
pub(crate) fn bodyfile3_line(
    name: String,
    inode: String,
    mode: &str,
    size: u64,
    atime: i64,
    mtime: i64,
    ctime: i64,
    crtime: i64,
) -> (line: String)
    ensures
        line@ == line_text(
            name@,
            inode@,
            mode@,
            size as int,
            atime as int,
            mtime as int,
            ctime as int,
            crtime as int,
        ),
{
    Bodyfile3Line::new().with_owned_name(name).with_owned_inode(inode).with_mode(mode).with_size(
        size,
    ).with_atime(atime).with_mtime(mtime).with_ctime(ctime).with_crtime(crtime).to_string()
}

/// The numeral of an integer holds no bar.
pub proof fn lemma_signed_decimal_has_no_bar(i: int)
    ensures
        count_char(signed_decimal(i), '|') == 0,
{
    if i < 0 {
        lemma_count_char_add(seq!['-'], decimal((-i) as nat), '|');
        lemma_count_char_single('-', '|');
        lemma_decimal_has_digits_only((-i) as nat, '|');
    } else {
        lemma_decimal_has_digits_only(i as nat, '|');
    }
}

/// A text and a bar behind it hold one bar more than the text.
proof fn lemma_count_with_bar(text: Seq<char>)
    ensures
        count_char(text + bar(), '|') == count_char(text, '|') + 1,
{
    lemma_count_char_add(text, bar(), '|');
    lemma_count_char_single('|', '|');
}

/// A line holds ten bars that part its fields, and those that its name,
/// its inode and its mode hold.
pub proof fn lemma_line_bars(
    name: Seq<char>,
    inode: Seq<char>,
    mode: Seq<char>,
    size: int,
    atime: int,
    mtime: int,
    ctime: int,
    crtime: int,
)
    ensures
        count_char(line_text(name, inode, mode, size, atime, mtime, ctime, crtime), '|') == 10
            + count_char(name, '|') + count_char(inode, '|') + count_char(mode, '|'),
{
    lemma_count_char_single('0', '|');
    lemma_decimal_has_digits_only(size as nat, '|');
    lemma_signed_decimal_has_no_bar(atime);
    lemma_signed_decimal_has_no_bar(mtime);
    lemma_signed_decimal_has_no_bar(ctime);
    lemma_signed_decimal_has_no_bar(crtime);
    let t1 = zero() + bar();
    lemma_count_with_bar(zero());
    let t2 = t1 + name;
    lemma_count_char_add(t1, name, '|');
    let t3 = t2 + bar();
    lemma_count_with_bar(t2);
    let t4 = t3 + inode;
    lemma_count_char_add(t3, inode, '|');
    let t5 = t4 + bar();
    lemma_count_with_bar(t4);
    let t6 = t5 + mode;
    lemma_count_char_add(t5, mode, '|');
    let t7 = t6 + bar();
    lemma_count_with_bar(t6);
    let t8 = t7 + zero();
    lemma_count_char_add(t7, zero(), '|');
    let t9 = t8 + bar();
    lemma_count_with_bar(t8);
    let t10 = t9 + zero();
    lemma_count_char_add(t9, zero(), '|');
    let t11 = t10 + bar();
    lemma_count_with_bar(t10);
    let t12 = t11 + decimal(size as nat);
    lemma_count_char_add(t11, decimal(size as nat), '|');
    let t13 = t12 + bar();
    lemma_count_with_bar(t12);
    let t14 = t13 + signed_decimal(atime);
    lemma_count_char_add(t13, signed_decimal(atime), '|');
    let t15 = t14 + bar();
    lemma_count_with_bar(t14);
    let t16 = t15 + signed_decimal(mtime);
    lemma_count_char_add(t15, signed_decimal(mtime), '|');
    let t17 = t16 + bar();
    lemma_count_with_bar(t16);
    let t18 = t17 + signed_decimal(ctime);
    lemma_count_char_add(t17, signed_decimal(ctime), '|');
    let t19 = t18 + bar();
    lemma_count_with_bar(t18);
    let t20 = t19 + signed_decimal(crtime);
    lemma_count_char_add(t19, signed_decimal(crtime), '|');
    assert(t20 == line_text(name, inode, mode, size, atime, mtime, ctime, crtime));
}

} // verus!
