use meme_box_game::errors::ErrorCode;

#[test]
fn every_error_has_a_message() {
    assert_eq!(ErrorCode::InvalidBoxNumber.message(), "Invalid box number");
    assert_eq!(ErrorCode::InvalidAmount.message(), "Invalid amount");
    assert_eq!(ErrorCode::InvalidLabel.message(), "Invalid label");
    assert_eq!(ErrorCode::Overflow.message(), "Amount overflows the prize pool");
    assert_eq!(ErrorCode::InsufficientFunds.message(), "Insufficient funds");
    assert_eq!(ErrorCode::NotLeadingLabel.message(), "Not the leading label");
    assert_eq!(ErrorCode::NoContribution.message(), "No contribution to claim");
    assert_eq!(ErrorCode::TimeLockNotElapsed.message(), "Not enough time has elapsed");
    assert_eq!(ErrorCode::TransferFailed.message(), "Transfer failed");
    assert_eq!(ErrorCode::SwapFailed.message(), "Swap failed");
}
