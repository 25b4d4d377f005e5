//! The built-in extraction rules: a content type and the expression that
//! finds it.

use vstd::prelude::*;
use crate::arguments::Arguments;
use crate::pattern::{Pattern, PatternError, regex_compiles};

verus! {

/// The number of built-in rules.
pub const RULE_COUNT: usize = 14;

pub const CREDIT_CARD: &'static str = r"\b(\d{4}[- ]?\d{4}[- ]?\d{4}[- ]?\d{4})\b";

pub const EMAIL: &'static str = r"\b([A-Za-z0-9._%+-]+@[A-Za-z0-9.-]+\.[A-Za-z]{2,4})\b";

pub const URL: &'static str = r#"(https?://(?:[^\s.,;:"'<>()\[\]{}]+\.)*[^\s.,;:"'<>()\[\]{}]+(/[^\s]*[^\s.,;:"'<>()\[\]{}\s])?)"#;

pub const IP_ADDRESS: &'static str = r"\b((?:\d{1,3}\.){3}\d{1,3})\b";

pub const SOCIAL_SECURITY: &'static str = r"\b(\d{3}-\d{2}-\d{4})\b";

pub const IPV6_ADDRESS: &'static str = r"([0-9a-fA-F]{1,4}(:[0-9a-fA-F]{1,4}){7})";

pub const PHONE_NUMBER: &'static str = r"(\b[2-9]\d{2}-\d{3}-\d{4}\b)";

pub const SRV_DNS: &'static str = r"\b(.+?)\s+IN\s+SRV\s+\d+\s+\d+\s+\d+\s+(.+)\b";

pub const MAC_ADDRESS: &'static str = r"([0-9a-fA-F]{2}(:[0-9a-fA-F]{2}){5})";

pub const GOOGLE: &'static str = r#""private_key_id":\s*"(\w{40})""#;

pub const AWS_KEYS: &'static str = r"\b(?:ACCESS_KEY|aws_access_key_id|aws_secret_access_key|secret_key)\s*=\s*([a-zA-Z0-9/+]{20,40})\s*\b";

pub const BITCOIN_WALLET: &'static str = r"\b([13][a-km-zA-HJ-NP-Z1-9]{25,34})\b";

pub const FILES: &'static str = r"([\w,\s-]+\.(txt|pdf|doc|docx|xls|xlsx|xml|jpg|jpeg|png|gif|bmp|csv|json|yaml|log|tar|tgz|gz|zip|rar|7z|exe|dll|bat|ps1|sh|py|rb|js|mdb|sql|db|dbf|ini|cfg|conf|bak|old|backup|pgp|gpg|aes|dll|sys|drv|ocx|pcap|tcpdump))";

/// Hexadecimal digests (MD5, SHA families, NTLM, LM, MD4, Oracle) and bcrypt
/// hashes (`$2a$`, `$2b$`, `$2x$`, `$2y$` with a cost and 53 characters of
/// salt and hash).
pub const HASHES: &'static str = r"((?:\b(?:[0-9a-fA-F]{32}|[0-9a-fA-F]{40}|[0-9a-fA-F]{56}|[0-9a-fA-F]{64}|[0-9a-fA-F]{96}|[0-9a-fA-F]{128}|[0-9a-fA-F]{56}|[0-9a-fA-F]{128}|[0-9a-fA-F]{224}|[0-9a-fA-F]{256}|[0-9a-fA-F]{384}|[0-9a-fA-F]{512}|[a-fA-F0-9*]{16}|[a-fA-F0-9*]{40}|[a-fA-F0-9*]{64}|[a-fA-F0-9*]{96}|[a-fA-F0-9*]{128})\b)|\$2[abxy]?\$\d{2}\$[./A-Za-z0-9]{53})";

/// The `i`-th built-in rule: its content type and its expression.
pub open spec fn rule_entry(i: int) -> (Seq<char>, Seq<char>) {
    if i == 0 {
        ("credit_card"@, CREDIT_CARD@)
    } else if i == 1 {
        ("email"@, EMAIL@)
    } else if i == 2 {
        ("url"@, URL@)
    } else if i == 3 {
        ("ip_address"@, IP_ADDRESS@)
    } else if i == 4 {
        ("social_security"@, SOCIAL_SECURITY@)
    } else if i == 5 {
        ("ipv6_address"@, IPV6_ADDRESS@)
    } else if i == 6 {
        ("phone_number"@, PHONE_NUMBER@)
    } else if i == 7 {
        ("srv_dns"@, SRV_DNS@)
    } else if i == 8 {
        ("mac_address"@, MAC_ADDRESS@)
    } else if i == 9 {
        ("google"@, GOOGLE@)
    } else if i == 10 {
        ("aws_keys"@, AWS_KEYS@)
    } else if i == 11 {
        ("bitcoin_wallet"@, BITCOIN_WALLET@)
    } else if i == 12 {
        ("files"@, FILES@)
    } else {
        ("hashes"@, HASHES@)
    }
}

/// All built-in rules, in table order.
pub open spec fn rule_table() -> Seq<(Seq<char>, Seq<char>)> {
    Seq::new(RULE_COUNT as nat, |i: int| rule_entry(i))
}

/// Whether the command line asked for the content type of the `i`-th rule.
pub open spec fn extraction_flag(a: Arguments, i: int) -> bool {
    if i == 0 {
        a.credit_card
    } else if i == 1 {
        a.email
    } else if i == 2 {
        a.url
    } else if i == 3 {
        a.ip_address
    } else if i == 4 {
        a.social_security
    } else if i == 5 {
        a.ipv6_address
    } else if i == 6 {
        a.phone_number
    } else if i == 7 {
        a.srv_dns
    } else if i == 8 {
        a.mac_address
    } else if i == 9 {
        a.google
    } else if i == 10 {
        a.aws_keys
    } else if i == 11 {
        a.bitcoin_wallet
    } else if i == 12 {
        a.files
    } else {
        a.hashes
    }
}

/// No content type was asked for.
pub open spec fn nothing_chosen(a: Arguments) -> bool {
    forall|i: int| 0 <= i < RULE_COUNT ==> !#[trigger] extraction_flag(a, i)
}

/// Of the first `n` rules, those asked for whose expression is not empty, in
/// table order.
pub open spec fn chosen_upto(a: Arguments, n: nat) -> Seq<(Seq<char>, Seq<char>)>
    decreases n,
{
    if n == 0 {
        seq![]
    } else {
        let prev = chosen_upto(a, (n - 1) as nat);
        let e = rule_entry(n - 1);
        if extraction_flag(a, n - 1) && e.1.len() > 0 {
            prev.push(e)
        } else {
            prev
        }
    }
}

/// The rules that a run uses: all of them when no content type was asked
/// for, else those asked for.
pub open spec fn chosen_rules(a: Arguments) -> Seq<(Seq<char>, Seq<char>)> {
    if nothing_chosen(a) {
        rule_table()
    } else {
        chosen_upto(a, RULE_COUNT as nat)
    }
}

/// Every built-in expression compiles.
pub open spec fn table_compiles() -> bool {
    forall|i: int| 0 <= i < RULE_COUNT ==> regex_compiles(#[trigger] rule_entry(i).1)
}

/// A content type and the compiled expression that finds it.
pub struct Rule {
    pub content_type: String,
    pub pattern: Pattern,
}

impl View for Rule {
    type V = (Seq<char>, Seq<char>);

    open spec fn view(&self) -> (Seq<char>, Seq<char>) {
        (self.content_type@, self.pattern@)
    }
}

/// The views of a list of rules.
pub open spec fn rules_view(rules: Seq<Rule>) -> Seq<(Seq<char>, Seq<char>)> {
    rules.map_values(|r: Rule| r@)
}

impl Rule {
    /// A rule for `content_type` with the expression `pattern`; fails exactly
    /// when the expression does not compile.
    pub fn new(content_type: &str, pattern: &str) -> (r: Result<Rule, PatternError>)
        ensures
            r is Ok <==> regex_compiles(pattern@),
            r matches Ok(rule) ==> rule@ == (content_type@, pattern@),
            r matches Err(e) ==> e.pattern@ == pattern@,
    {
        match Pattern::new(pattern) {
            Ok(p) => Ok(Rule { content_type: content_type.to_owned(), pattern: p }),
            Err(e) => Err(e),
        }
    }
}

/// The content type and expression of the `i`-th built-in rule.
pub fn rule_entry_exec(i: usize) -> (r: (&'static str, &'static str))
    requires
        i < RULE_COUNT,
    ensures
        (r.0@, r.1@) == rule_entry(i as int),
{
    match i {
        0 => ("credit_card", CREDIT_CARD),
        1 => ("email", EMAIL),
        2 => ("url", URL),
        3 => ("ip_address", IP_ADDRESS),
        4 => ("social_security", SOCIAL_SECURITY),
        5 => ("ipv6_address", IPV6_ADDRESS),
        6 => ("phone_number", PHONE_NUMBER),
        7 => ("srv_dns", SRV_DNS),
        8 => ("mac_address", MAC_ADDRESS),
        9 => ("google", GOOGLE),
        10 => ("aws_keys", AWS_KEYS),
        11 => ("bitcoin_wallet", BITCOIN_WALLET),
        12 => ("files", FILES),
        _ => ("hashes", HASHES),
    }
}

/// Whether the command line asked for the content type of the `i`-th rule.
pub fn extraction_flag_exec(a: &Arguments, i: usize) -> (r: bool)
    requires
        i < RULE_COUNT,
    ensures
        r == extraction_flag(*a, i as int),
{
    match i {
        0 => a.credit_card,
        1 => a.email,
        2 => a.url,
        3 => a.ip_address,
        4 => a.social_security,
        5 => a.ipv6_address,
        6 => a.phone_number,
        7 => a.srv_dns,
        8 => a.mac_address,
        9 => a.google,
        10 => a.aws_keys,
        11 => a.bitcoin_wallet,
        12 => a.files,
        _ => a.hashes,
    }
}

/// Compiles every built-in rule and keeps those that `a` asks for: all of
/// them when it asks for none. Fails exactly when a built-in expression does
/// not compile, with the first such expression.
pub fn select_rules(a: &Arguments) -> (r: Result<Vec<Rule>, PatternError>)
    ensures
        r is Ok <==> table_compiles(),
        r matches Ok(rules) ==> rules_view(rules@) == chosen_rules(*a),
        r matches Err(e) ==> exists|i: int|
            0 <= i < RULE_COUNT && e.pattern@ == rule_entry(i).1 && !regex_compiles(
                #[trigger] rule_entry(i).1,
            ),
{
    let mut nothing: bool = true;
    let mut i: usize = 0;
    while i < RULE_COUNT
        invariant
            i <= RULE_COUNT,
            nothing <==> forall|k: int| 0 <= k < i ==> !#[trigger] extraction_flag(*a, k),
        decreases RULE_COUNT - i,
    {
        if extraction_flag_exec(a, i) {
            nothing = false;
        }
        i = i + 1;
    }
    assert(nothing <==> nothing_chosen(*a));
    let mut rules: Vec<Rule> = Vec::new();
    let mut i: usize = 0;
    while i < RULE_COUNT
        invariant
            i <= RULE_COUNT,
            nothing <==> nothing_chosen(*a),
            forall|k: int| 0 <= k < i ==> regex_compiles(#[trigger] rule_entry(k).1),
            rules_view(rules@) == (if nothing {
                rule_table().take(i as int)
            } else {
                chosen_upto(*a, i as nat)
            }),
        decreases RULE_COUNT - i,
    {
        let (name, source) = rule_entry_exec(i);
        let rule = match Rule::new(name, source) {
            Ok(rule) => rule,
            Err(e) => {
                assert(!regex_compiles(rule_entry(i as int).1));
                assert(!table_compiles());
                return Err(e);
            },
        };
        let ghost before = rules@;
        if nothing || (extraction_flag_exec(a, i) && !rule.pattern.as_str().is_empty()) {
            rules.push(rule);
            assert(rules@ == before.push(rule));
        }
        assert(rule_table().take(i + 1) == rule_table().take(i as int).push(rule_entry(i as int)));
        assert(rules_view(rules@) == (if nothing {
            rule_table().take(i + 1)
        } else {
            chosen_upto(*a, (i + 1) as nat)
        }));
        i = i + 1;
    }
    assert(rule_table().take(RULE_COUNT as int) == rule_table());
    Ok(rules)
}

/// The command-line flag with the name `name`: the `Arguments` field so
/// named, or `false` for a name that no flag has.
pub open spec fn flag_named(a: Arguments, name: Seq<char>) -> bool {
    if name == "credit_card"@ {
        a.credit_card
    } else if name == "email"@ {
        a.email
    } else if name == "url"@ {
        a.url
    } else if name == "ip_address"@ {
        a.ip_address
    } else if name == "social_security"@ {
        a.social_security
    } else if name == "ipv6_address"@ {
        a.ipv6_address
    } else if name == "phone_number"@ {
        a.phone_number
    } else if name == "srv_dns"@ {
        a.srv_dns
    } else if name == "mac_address"@ {
        a.mac_address
    } else if name == "google"@ {
        a.google
    } else if name == "aws_keys"@ {
        a.aws_keys
    } else if name == "bitcoin_wallet"@ {
        a.bitcoin_wallet
    } else if name == "files"@ {
        a.files
    } else if name == "hashes"@ {
        a.hashes
    } else {
        false
    }
}

/// A rule is asked for exactly when the command-line flag named after its
/// content type is set; and nothing is asked for exactly when none of those
/// flags is set.
pub proof fn law_rule_follows_its_flag(a: Arguments)
    ensures
        forall|i: int|
            0 <= i < RULE_COUNT ==> #[trigger] extraction_flag(a, i) == flag_named(a, rule_entry(i).0),
        nothing_chosen(a) <==> forall|i: int| 0 <= i < RULE_COUNT ==> !flag_named(a, #[trigger] rule_entry(i).0),
{
    reveal_strlit("credit_card");
    reveal_strlit("email");
    reveal_strlit("url");
    reveal_strlit("ip_address");
    reveal_strlit("social_security");
    reveal_strlit("ipv6_address");
    reveal_strlit("phone_number");
    reveal_strlit("srv_dns");
    reveal_strlit("mac_address");
    reveal_strlit("google");
    reveal_strlit("aws_keys");
    reveal_strlit("bitcoin_wallet");
    reveal_strlit("files");
    reveal_strlit("hashes");
    assert("credit_card"@.len() == 11 && "credit_card"@[0] == 'c');
    assert("email"@.len() == 5 && "email"@[0] == 'e');
    assert("url"@.len() == 3 && "url"@[0] == 'u');
    assert("ip_address"@.len() == 10 && "ip_address"@[0] == 'i');
    assert("social_security"@.len() == 15 && "social_security"@[0] == 's');
    assert("ipv6_address"@.len() == 12 && "ipv6_address"@[0] == 'i');
    assert("phone_number"@.len() == 12 && "phone_number"@[0] == 'p');
    assert("srv_dns"@.len() == 7 && "srv_dns"@[0] == 's');
    assert("mac_address"@.len() == 11 && "mac_address"@[0] == 'm');
    assert("google"@.len() == 6 && "google"@[0] == 'g');
    assert("aws_keys"@.len() == 8 && "aws_keys"@[0] == 'a');
    assert("bitcoin_wallet"@.len() == 14 && "bitcoin_wallet"@[0] == 'b');
    assert("files"@.len() == 5 && "files"@[0] == 'f');
    assert("hashes"@.len() == 6 && "hashes"@[0] == 'h');
    assert forall|i: int| 0 <= i < RULE_COUNT implies #[trigger] extraction_flag(a, i) == flag_named(
        a,
        rule_entry(i).0,
    ) by {
        if i == 0 {
            assert(rule_entry(i).0 == "credit_card"@);
        } else if i == 1 {
            assert(rule_entry(i).0 == "email"@);
        } else if i == 2 {
            assert(rule_entry(i).0 == "url"@);
        } else if i == 3 {
            assert(rule_entry(i).0 == "ip_address"@);
        } else if i == 4 {
            assert(rule_entry(i).0 == "social_security"@);
        } else if i == 5 {
            assert(rule_entry(i).0 == "ipv6_address"@);
        } else if i == 6 {
            assert(rule_entry(i).0 == "phone_number"@);
        } else if i == 7 {
            assert(rule_entry(i).0 == "srv_dns"@);
        } else if i == 8 {
            assert(rule_entry(i).0 == "mac_address"@);
        } else if i == 9 {
            assert(rule_entry(i).0 == "google"@);
        } else if i == 10 {
            assert(rule_entry(i).0 == "aws_keys"@);
        } else if i == 11 {
            assert(rule_entry(i).0 == "bitcoin_wallet"@);
        } else if i == 12 {
            assert(rule_entry(i).0 == "files"@);
        } else if i == 13 {
            assert(rule_entry(i).0 == "hashes"@);
        }
    }
    if nothing_chosen(a) {
        assert forall|i: int| 0 <= i < RULE_COUNT implies !flag_named(a, #[trigger] rule_entry(i).0) by {
            assert(!extraction_flag(a, i));
        }
    }
    if forall|i: int| 0 <= i < RULE_COUNT ==> !flag_named(a, #[trigger] rule_entry(i).0) {
        assert forall|i: int| 0 <= i < RULE_COUNT implies !#[trigger] extraction_flag(a, i) by {
            assert(!flag_named(a, rule_entry(i).0));
        }
    }
}

} // verus!
