use congruity::command::{help_text, parse_command, Command};
use congruity::rpc::{account_amount_of, balance_reply, best_block_of};
use congruity::types::{AccountAddress, Address, Amount, AmountWithSchedule, ContractAddress};
use congruity::updates::format_sender;
use congruity::codec::decode_summary_text;
use congruity::utils::{format_account_address, format_address, format_txhash};

#[test]
fn one_ccd_renders_with_six_decimals() {
    assert_eq!(Amount(1000000).to_text(), "1.000000");
    assert_eq!(Amount(1).to_text(), "0.000001");
    assert_eq!(Amount(0).to_text(), "0.000000");
    assert_eq!(Amount(123456789).to_text(), "123.456789");
    assert_eq!(Amount(2500000).to_text(), "2.500000");
}

#[test]
fn schedule_total_sums_all_tranches() {
    let sched = AmountWithSchedule(vec![
        (1600000000, "400000".to_string()),
        (1700000000, "600000".to_string()),
    ]);
    let total = sched.checked_total().expect("well-formed schedule");
    assert_eq!(total, Amount(1000000));
    assert_eq!(sched.total_amount().to_text(), "1.000000");
}

#[test]
fn ill_formed_schedule_has_no_total() {
    let sched = AmountWithSchedule(vec![(1, "4e5".to_string())]);
    assert!(sched.checked_total().is_none());
    let huge = AmountWithSchedule(vec![
        (1, u64::MAX.to_string()),
        (2, "1".to_string()),
    ]);
    assert!(huge.checked_total().is_none());
}

#[test]
fn amount_parses_plain_micro_integers_only() {
    assert_eq!(Amount::parse("1000000"), Some(Amount(1000000)));
    assert_eq!(Amount::parse("0"), Some(Amount(0)));
    assert!(Amount::parse("").is_none());
    assert!(Amount::parse("12.5").is_none());
    assert!(Amount::parse("-3").is_none());
    assert!(Amount::parse("99999999999999999999").is_none());
}

#[test]
fn account_address_renders_as_a_prefixed_link() {
    let a = AccountAddress::new("testaccountaddress".to_string());
    assert_eq!(
        format_account_address(&a, false, true),
        "<a href=\"https://wallet-proxy.mainnet.concordium.software/v0/accBalance/testaccountaddress\">testacco</a>"
    );
    assert_eq!(
        format_account_address(&a, true, false),
        "<a href=\"https://wallet-proxy.testnet.concordium.com/v0/accBalance/testaccountaddress\">\u{1f464}testacco</a>"
    );
}

#[test]
fn contract_address_renders_with_its_index_pair() {
    let c = Address::Contract(ContractAddress { index: 5, subindex: 7 });
    assert_eq!(format_address(&c, true), "\u{1f4dd}&lt;5,7&gt;");
}

#[test]
fn txhash_renders_as_a_dashboard_link() {
    assert_eq!(
        format_txhash("feedc0de90aa", false),
        "<a href=\"https://dashboard.testnet.concordium.com/lookup/feedc0de90aa\">feedc0de</a>"
    );
}

#[test]
fn sender_line_is_empty_without_a_sender() {
    assert_eq!(format_sender(None, true), "");
    let a = AccountAddress::new("senderaccount".to_string());
    assert_eq!(
        format_sender(Some(a), true),
        "Sender: <a href=\"https://wallet-proxy.mainnet.concordium.software/v0/accBalance/senderaccount\">senderac</a>\n"
    );
}

#[test]
fn commands_parse_with_and_without_bot_name() {
    assert_eq!(parse_command("/start"), Some(Command::Start));
    assert_eq!(parse_command("/help"), Some(Command::Help));
    assert_eq!(parse_command("/balance"), Some(Command::Balance));
    assert_eq!(parse_command("/subscribe"), Some(Command::Subscribe));
    assert_eq!(parse_command("/subscriptions"), Some(Command::Subscriptions));
    assert_eq!(parse_command("/unsubscribe"), Some(Command::Unsubscribe));
    assert_eq!(parse_command("/help@Congruity"), Some(Command::Help));
    assert_eq!(parse_command("/help with arguments"), Some(Command::Help));
    assert_eq!(parse_command("/frobnicate"), None);
    assert_eq!(parse_command("hello"), None);
    assert!(help_text().contains("/subscribe"));
}

#[test]
fn address_parse_accepts_only_base58check_of_32_bytes() {
    let bytes: Vec<u8> = (100u8..132u8).collect();
    let good = AccountAddress::from_bytes(&bytes);
    let parsed = AccountAddress::from_str(good.address()).expect("valid address");
    assert_eq!(parsed.address(), good.address());
    assert_eq!(parsed.to_bytes(), bytes);
    assert!(AccountAddress::from_str("not base58check").is_err());
    assert!(AccountAddress::from_str("").is_err());
    // well-formed base58check of the wrong payload length
    assert!(AccountAddress::from_str("5b4vP1wunz2H5").is_err());
}

#[test]
fn balance_reply_renders_ccd() {
    assert_eq!(balance_reply("1000000").unwrap(), "1.000000 CCD");
    assert!(balance_reply("12.5").is_none());
}

#[test]
fn rpc_documents_are_read_field_by_field() {
    // reuse the JSON parser through public functions: best_block_of and
    // account_amount_of read documents the node returns
    let consensus = congruity::json::Json::Obj(vec![(
        "bestBlock".to_string(),
        congruity::json::Json::Str("blockhash01".to_string()),
    )]);
    assert_eq!(best_block_of(&consensus).unwrap(), "blockhash01");
    let info = congruity::json::Json::Obj(vec![(
        "accountAmount".to_string(),
        congruity::json::Json::Str("1000000".to_string()),
    )]);
    assert_eq!(account_amount_of(&info).unwrap(), "1000000");
    let not_obj = congruity::json::Json::Str("x".to_string());
    assert!(account_amount_of(&not_obj).is_none());
    // and a summary with a rejected outcome still decodes
    assert!(decode_summary_text("{\"Right\":{\"tag\":\"BlockReward\"}}").is_some());
}
