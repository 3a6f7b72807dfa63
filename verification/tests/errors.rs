use mpp_test_sdk::{Error, MppFaucetError, MppNetworkError, MppPaymentError, MppTimeoutError};

#[test]
fn errors_are_shown_by_their_messages() {
    let faucet = MppFaucetError { message: "f".to_string(), address: "a".to_string() };
    assert_eq!(faucet.display(), "f");
    assert_eq!(Error::from(faucet).display(), "f");
    let payment = MppPaymentError { message: "p".to_string(), url: "u".to_string(), status: 402 };
    assert_eq!(payment.display(), "p");
    assert_eq!(Error::from(payment).display(), "p");
    let timeout =
        MppTimeoutError { message: "t".to_string(), url: "u".to_string(), timeout_ms: 1 };
    assert_eq!(timeout.display(), "t");
    assert_eq!(Error::from(timeout).display(), "t");
    let network = MppNetworkError { message: "n".to_string(), network: "mainnet".to_string() };
    assert_eq!(network.display(), "n");
    assert_eq!(Error::from(network).display(), "n");
    assert_eq!(Error::Other("o".to_string()).display(), "o");
}

#[test]
fn errors_keep_what_they_are_made_of() {
    let error = Error::from(MppPaymentError {
        message: "p".to_string(),
        url: "u".to_string(),
        status: 500,
    });
    match error {
        Error::Payment(e) => {
            assert_eq!(e.url, "u");
            assert_eq!(e.status, 500);
        }
        other => panic!("{other:?}"),
    }
}
