use vstd::prelude::*;

verus! {

/// A language the interface is offered in.
#[derive(Debug, Clone, Copy, PartialEq, Eq, Structural)]
pub enum Language {
    English,
    Swahili,
}

/// One entry of the interface's phrase book.
pub struct Translation {
    pub key: &'static str,
    pub en: &'static str,
    pub sw: &'static str,
}

/// The phrase book as (key, English, Swahili) triples.
pub open spec fn catalog() -> Seq<(Seq<char>, Seq<char>, Seq<char>)> {
    seq![
        ("welcome"@, "Financial Freedom for Everyone"@, "Uhuru wa Kifedha kwa Kila Mtu"@),
        ("hero_sub"@, "MicroFund Africa provides secure, blockchain-powered microloans and savings for the unbanked across the continent."@, "MicroFund Africa hutoa mikopo midogo na akiba salama iliyowezeshwa na blockchain kwa wale wasio na akaunti za benki kote barani."@),
        ("get_started"@, "Get Started"@, "Anza Sasa"@),
        ("login"@, "Login"@, "Ingia"@),
        ("register"@, "Register"@, "Jisajili"@),
        ("dashboard"@, "Dashboard"@, "Dashibodi"@),
        ("logout"@, "Logout"@, "Ondoka"@),
        ("trust_score"@, "Trust Score"@, "Alama ya Imani"@),
        ("total_impact"@, "Total Impact"@, "Jumla ya Athari"@),
        ("marketplace"@, "P2P Marketplace"@, "Soko la P2P"@),
        ("microloans"@, "Microloans"@, "Mikopo Midogo"@),
        ("savings_goals"@, "Savings Goals"@, "Malengo ya Akiba"@),
        ("request_loan"@, "Request Loan"@, "Omba Mkopo"@),
        ("create_goal"@, "Create Goal"@, "Tengeneza Lengo"@),
        ("repay"@, "Repay"@, "Lipa"@),
        ("fund"@, "Fund"@, "Gharamia"@),
    ]
}

/// The text shown for `key` in `lang`: that of the first entry with the key,
/// or the key itself when no entry has it.
pub open spec fn lookup(table: Seq<(Seq<char>, Seq<char>, Seq<char>)>, key: Seq<char>, lang: Language) -> Seq<char>
    decreases table.len(),
{
    if table.len() == 0 {
        key
    } else if table[0].0 == key {
        match lang {
            Language::English => table[0].1,
            Language::Swahili => table[0].2,
        }
    } else {
        lookup(table.drop_first(), key, lang)
    }
}

pub open spec fn entry_view(t: Translation) -> (Seq<char>, Seq<char>, Seq<char>) {
    (t.key@, t.en@, t.sw@)
}

/// The phrase book.
pub fn translations() -> (r: Vec<Translation>)
    ensures
        r@.map_values(|t: Translation| entry_view(t)) == catalog(),
{
    let mut table: Vec<Translation> = Vec::new();
    table.push(Translation {
        key: "welcome",
        en: "Financial Freedom for Everyone",
        sw: "Uhuru wa Kifedha kwa Kila Mtu",
    });
    table.push(Translation {
        key: "hero_sub",
        en: "MicroFund Africa provides secure, blockchain-powered microloans and savings for the unbanked across the continent.",
        sw: "MicroFund Africa hutoa mikopo midogo na akiba salama iliyowezeshwa na blockchain kwa wale wasio na akaunti za benki kote barani.",
    });
    table.push(Translation {
        key: "get_started",
        en: "Get Started",
        sw: "Anza Sasa",
    });
    table.push(Translation {
        key: "login",
        en: "Login",
        sw: "Ingia",
    });
    table.push(Translation {
        key: "register",
        en: "Register",
        sw: "Jisajili",
    });
    table.push(Translation {
        key: "dashboard",
        en: "Dashboard",
        sw: "Dashibodi",
    });
    table.push(Translation {
        key: "logout",
        en: "Logout",
        sw: "Ondoka",
    });
    table.push(Translation {
        key: "trust_score",
        en: "Trust Score",
        sw: "Alama ya Imani",
    });
    table.push(Translation {
        key: "total_impact",
        en: "Total Impact",
        sw: "Jumla ya Athari",
    });
    table.push(Translation {
        key: "marketplace",
        en: "P2P Marketplace",
        sw: "Soko la P2P",
    });
    table.push(Translation {
        key: "microloans",
        en: "Microloans",
        sw: "Mikopo Midogo",
    });
    table.push(Translation {
        key: "savings_goals",
        en: "Savings Goals",
        sw: "Malengo ya Akiba",
    });
    table.push(Translation {
        key: "request_loan",
        en: "Request Loan",
        sw: "Omba Mkopo",
    });
    table.push(Translation {
        key: "create_goal",
        en: "Create Goal",
        sw: "Tengeneza Lengo",
    });
    table.push(Translation {
        key: "repay",
        en: "Repay",
        sw: "Lipa",
    });
    table.push(Translation {
        key: "fund",
        en: "Fund",
        sw: "Gharamia",
    });
    assert(table@.map_values(|t: Translation| entry_view(t)) =~= catalog());
    table
}

/// The text shown for `key` in `lang`, or `key` itself when the phrase book
/// has no entry for it.
pub fn t(key: &str, lang: &Language) -> (r: String)
    ensures
        r@ == lookup(catalog(), key@, *lang),
{
    let table = translations();
    let ghost entries = table@.map_values(|t: Translation| entry_view(t));
    let wanted = String::from_str(key);
    let n = table.len();
    let mut i: usize = 0;
    assert(entries.subrange(0, n as int) =~= entries);
    while i < n
        invariant
            n == table@.len(),
            entries == table@.map_values(|t: Translation| entry_view(t)),
            entries == catalog(),
            wanted@ == key@,
            i <= n,
            lookup(entries, key@, *lang) == lookup(entries.subrange(i as int, n as int), key@, *lang),
        decreases n - i,
    {
        let ghost rest = entries.subrange(i as int, n as int);
        assert(rest.drop_first() =~= entries.subrange(i + 1, n as int));
        assert(rest[0] == entry_view(table@[i as int]));
        let entry = &table[i];
        if String::from_str(entry.key) == wanted {
            return match lang {
                Language::English => String::from_str(entry.en),
                Language::Swahili => String::from_str(entry.sw),
            };
        }
        i = i + 1;
    }
    String::from_str(key)
}

} // verus!
