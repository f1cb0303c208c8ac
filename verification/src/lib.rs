mod amount;
mod campaign;
mod decimal;
mod donations;
mod errors;
mod ledger;
mod token;

pub use amount::lemma_share_split;
pub use amount::spec_creator_share;
pub use amount::spec_platform_share;
pub use amount::split_donation;
pub use campaign::donation_recorded;
pub use campaign::lemma_collected_is_donation_sum;
pub use campaign::view_matches;
pub use campaign::Campaign;
pub use campaign::CampaignView;
pub use decimal::dec_rep;
pub use decimal::digit_char;
pub use decimal::u128_to_dec;
pub use donations::donation_of;
pub use donations::donors_unique;
pub use donations::is_donor;
pub use donations::sum_donations;
pub use errors::LedgerError;
pub use ledger::access_preserved;
pub use ledger::Crowdfunding;
pub use ledger::Transfer;
pub use ledger::CAMPAIGN_CREATION_FEE;
pub use token::NftToken;
pub use token::TokenMetadata;
