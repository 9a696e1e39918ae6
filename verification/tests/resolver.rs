use email_verify::{
    after_address_lookup, after_mx_lookup, merge_hosts, order_by_preference, DnsFailure,
    MxCandidate, MxDecision, ResolutionError,
};

fn mx(hostname: &str, preference: u16) -> MxCandidate {
    MxCandidate { hostname: hostname.to_string(), preference }
}

#[test]
fn exchangers_are_ordered_by_ascending_preference() {
    let sorted = order_by_preference(vec![mx("c", 30), mx("a", 10), mx("d", 40), mx("b", 20)]);
    assert_eq!(sorted, vec![mx("a", 10), mx("b", 20), mx("c", 30), mx("d", 40)]);
}

#[test]
fn exchangers_of_equal_preference_keep_their_order() {
    let sorted = order_by_preference(vec![
        mx("x", 10),
        mx("first", 5),
        mx("y", 10),
        mx("second", 5),
        mx("z", 10),
        mx("third", 5),
    ]);
    assert_eq!(
        sorted,
        vec![mx("first", 5), mx("second", 5), mx("third", 5), mx("x", 10), mx("y", 10), mx("z", 10)]
    );
}

#[test]
fn ordering_keeps_every_record() {
    assert_eq!(order_by_preference(vec![]), vec![]);
    assert_eq!(order_by_preference(vec![mx("only", 7)]), vec![mx("only", 7)]);
    let sorted = order_by_preference(vec![mx("a", 65535), mx("a", 0), mx("a", 65535)]);
    assert_eq!(sorted, vec![mx("a", 0), mx("a", 65535), mx("a", 65535)]);
}

#[test]
fn mail_exchangers_resolve_in_order() {
    assert_eq!(
        after_mx_lookup(Ok(vec![mx("backup.example.com", 20), mx("mail.example.com", 10)])),
        MxDecision::Resolved(vec![mx("mail.example.com", 10), mx("backup.example.com", 20)])
    );
}

#[test]
fn no_mail_exchanger_asks_for_an_address() {
    assert_eq!(after_mx_lookup(Ok(vec![])), MxDecision::NeedAddressLookup);
    assert_eq!(after_mx_lookup(Err(DnsFailure::NoRecords)), MxDecision::NeedAddressLookup);
}

#[test]
fn a_failed_query_for_exchangers_fails_the_resolution() {
    assert_eq!(
        after_mx_lookup(Err(DnsFailure::Transport)),
        MxDecision::Failed(ResolutionError::NetworkError)
    );
    assert_eq!(
        after_mx_lookup(Err(DnsFailure::Malformed)),
        MxDecision::Failed(ResolutionError::ProtocolError)
    );
}

#[test]
fn a_domain_with_an_address_is_its_own_exchanger() {
    assert_eq!(after_address_lookup("example.com", Ok(1)), Ok(vec![mx("example.com", 0)]));
    assert_eq!(after_address_lookup("example.com", Ok(4)), Ok(vec![mx("example.com", 0)]));
}

#[test]
fn a_domain_without_an_address_is_not_found() {
    assert_eq!(after_address_lookup("example.com", Ok(0)), Err(ResolutionError::DomainNotFound));
    assert_eq!(
        after_address_lookup("example.com", Err(DnsFailure::NoRecords)),
        Err(ResolutionError::DomainNotFound)
    );
}

#[test]
fn a_failed_query_for_an_address_fails_the_resolution() {
    assert_eq!(
        after_address_lookup("example.com", Err(DnsFailure::Transport)),
        Err(ResolutionError::NetworkError)
    );
    assert_eq!(
        after_address_lookup("example.com", Err(DnsFailure::Malformed)),
        Err(ResolutionError::ProtocolError)
    );
}

#[test]
fn merging_keeps_the_first_record_of_each_host() {
    assert_eq!(merge_hosts(&vec![]), vec![]);
    assert_eq!(merge_hosts(&vec![mx("a", 1)]), vec![mx("a", 1)]);
    assert_eq!(merge_hosts(&vec![mx("a", 1), mx("a", 2)]), vec![mx("a", 1)]);
    assert_eq!(merge_hosts(&vec![mx("a", 1), mx("a", 1)]), vec![mx("a", 1)]);
    assert_eq!(
        merge_hosts(&vec![mx("a", 1), mx("b", 2), mx("a", 3), mx("c", 4), mx("b", 5), mx("a", 6)]),
        vec![mx("a", 1), mx("b", 2), mx("c", 4)]
    );
}

#[test]
fn merging_compares_host_names_as_given() {
    assert_eq!(
        merge_hosts(&vec![mx("mx.example.com", 1), mx("MX.example.com", 2), mx("mx.example.com.", 3)]),
        vec![mx("mx.example.com", 1), mx("MX.example.com", 2), mx("mx.example.com.", 3)]
    );
}

#[test]
fn a_host_under_two_preferences_is_one_exchanger() {
    assert_eq!(
        after_mx_lookup(Ok(vec![mx("mx.example.com", 20), mx("mx.example.com", 10)])),
        MxDecision::Resolved(vec![mx("mx.example.com", 10)])
    );
    assert_eq!(
        after_mx_lookup(Ok(vec![
            mx("mx.example.com", 20),
            mx("backup.example.com", 15),
            mx("mx.example.com", 10),
            mx("backup.example.com", 30),
        ])),
        MxDecision::Resolved(vec![mx("mx.example.com", 10), mx("backup.example.com", 15)])
    );
}
