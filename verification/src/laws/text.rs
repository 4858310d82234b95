//! Laws on what the shell writes.

use vstd::prelude::*;

use crate::error::ErrorView;
use crate::text::{decimal_text, digit};

verus! {

/// A number in decimal is made of digits, does not start with a zero unless it
/// is one, and is read back as the number.
pub proof fn law_decimal(n: nat)
    ensures
        decimal_text(n).len() >= 1,
        forall|i: int|
            0 <= i < decimal_text(n).len() ==> '0' as int <= #[trigger] decimal_text(n)[i] as int
                <= '9' as int,
        decimal_text(n).len() > 1 ==> decimal_text(n)[0] != '0',
        decimal_text(n)[0] == '0' ==> n == 0,
        decimal_text(n).fold_left(0int, |v: int, c: char| 10 * v + (c as int - '0' as int)) == n,
    decreases n,
{
    let text = decimal_text(n);
    let value = |v: int, c: char| 10 * v + (c as int - '0' as int);
    assert(digit(n % 10) as int == '0' as int + n % 10);
    if n < 10 {
        assert(text.drop_last() =~= Seq::empty());
        reveal_with_fuel(Seq::fold_left, 2);
    } else {
        law_decimal(n / 10);
        assert(text.drop_last() =~= decimal_text(n / 10));
        assert(text.last() == digit(n % 10));
        assert forall|i: int| 0 <= i < text.len() implies '0' as int <= #[trigger] text[i] as int
            <= '9' as int by {
            if i < text.len() - 1 {
                assert(text[i] == decimal_text(n / 10)[i]);
            }
        }
        assert(text[0] == decimal_text(n / 10)[0]);
        assert(text.fold_left(0int, value) == value(
            decimal_text(n / 10).fold_left(0int, value),
            text.last(),
        ));
    }
}

/// An error in words says which part of the node it comes from, and then
/// exactly what that part reports.
pub proof fn law_messages(addr: Seq<char>, reason: Seq<char>)
    ensures
        (ErrorView::Temporary { error: reason }).message() == "TEMPORARY error: "@ + reason,
        ErrorView::RemoveDB(reason).message() == "Error removing the DB data: "@ + reason,
        ErrorView::StorageError(reason).message() == "Storage error: "@ + reason,
        ErrorView::AbciChannelRecvError(reason).message() == "Shell ABCI channel receiver error: "@
            + reason,
        ErrorView::AbciChannelSendError(reason).message() == "Shell ABCI channel sender error: "@
            + reason,
        ErrorView::TxDecodingError(reason).message() == "Error decoding a transaction from bytes: "@
            + reason,
        ErrorView::TxRunnerError(reason).message() == "Transaction runner error: "@ + reason,
        (ErrorView::VpRunnerError { addr, error: reason }).message() == "Validity predicate for "@
            + addr + " runner error: "@ + reason,
        ErrorView::GasError(reason).message() == "Gas error: "@ + reason,
{
}

} // verus!
