//! Address-keyed artifact persistence: once a deployment address is known,
//! the record is stored flat under the configured root as
//! `{contract_name}-{address}.json`. As with the time-bucketed strategy,
//! this module computes the path and the record text; the host performs
//! the directory creation and the atomic write.

use vstd::prelude::*;
use vstd::string::StrSliceExecFns;
use vstd::string::StringExecFns;
use crate::chars::dec_digits;
use crate::chars::dec_val;
use crate::chars::digit_val;
use crate::chars::lemma_dec_digits_val;
use crate::chars::u64_to_dec;
use crate::deploy_engine::CompilationOutput;
use crate::artifact_manager::StorePlan;
use crate::jsonrec::append_escaped;
use crate::jsonrec::esc;
use crate::jsonrec::expect_lit;
use crate::jsonrec::lemma_digit_run_end;
use crate::jsonrec::lemma_digit_run_end_bounds;
use crate::jsonrec::lemma_scan_esc;
use crate::jsonrec::lemma_scan_string_bounds;
use crate::jsonrec::lit_at;
use crate::jsonrec::parse_u64_at;
use crate::jsonrec::parse_u64_at_spec;
use crate::jsonrec::scan_string;
use crate::jsonrec::scan_string_at;
use crate::jsonrec::valid_chars;

verus! {

/// What one address-keyed artifact record holds.
pub struct StorableArtifactData {
    pub contract_name: String,
    pub abi: String,
    pub bytecode: String,
    pub address: String,
    pub deployed_at: i64,
}

/// The decimal rendering of a signed value: a minus sign for negatives,
/// plain digits otherwise.
pub open spec fn dec_digits_i64(n: int) -> Seq<char> {
    if n >= 0 {
        dec_digits(n as nat)
    } else {
        seq!['-'] + dec_digits((-n) as nat)
    }
}

pub fn i64_to_dec(n: i64) -> (r: String)
    ensures
        r@ == dec_digits_i64(n as int),
{
    if n >= 0 {
        u64_to_dec(n as u64)
    } else {
        let m: u64 = if n == i64::MIN {
            9223372036854775808u64
        } else {
            (-n) as u64
        };
        let mut s = String::from_str("-");
        let d = u64_to_dec(m);
        s.append(d.as_str());
        proof {
            reveal_strlit("-");
            assert(m as int == -(n as int));
            assert(s@ =~= dec_digits_i64(n as int));
        }
        s
    }
}

/// Reads the signed decimal number starting at `i`: an optional minus sign
/// and a digit run, refused when the value does not fit in an `i64`.
pub open spec fn parse_i64_at_spec(s: Seq<char>, i: int) -> Option<(i64, int)> {
    if 0 <= i && i < s.len() && s[i] == '-' {
        match parse_u64_at_spec(s, i + 1) {
            Option::None => None,
            Option::Some((v, j)) => {
                if v <= 9223372036854775808u64 {
                    Some(((-(v as int)) as i64, j))
                } else {
                    None
                }
            },
        }
    } else {
        match parse_u64_at_spec(s, i) {
            Option::None => None,
            Option::Some((v, j)) => {
                if v <= (i64::MAX as u64) {
                    Some((v as i64, j))
                } else {
                    None
                }
            },
        }
    }
}

pub fn parse_i64_at(s: &str, i: usize) -> (r: Option<(i64, usize)>)
    requires
        i <= s@.len(),
    ensures
        (r matches Some(x) ==> parse_i64_at_spec(s@, i as int) == Some((x.0, x.1 as int))),
        (r is None ==> parse_i64_at_spec(s@, i as int) is None),
{
    let n: usize = s.unicode_len();
    if i < n && s.get_char(i) == '-' {
        match parse_u64_at(s, i + 1) {
            Option::None => None,
            Option::Some((v, j)) => {
                if v <= 9223372036854775808u64 {
                    let out: i64 = if v == 9223372036854775808u64 {
                        i64::MIN
                    } else {
                        -(v as i64)
                    };
                    Some((out, j))
                } else {
                    None
                }
            },
        }
    } else {
        match parse_u64_at(s, i) {
            Option::None => None,
            Option::Some((v, j)) => {
                if v <= 9223372036854775807u64 {
                    Some((v as i64, j))
                } else {
                    None
                }
            },
        }
    }
}

/// The canonical JSON text of an address-keyed artifact record.
pub open spec fn stored_record_spec(
    name: Seq<char>,
    abi: Seq<char>,
    bytecode: Seq<char>,
    address: Seq<char>,
    deployed_at: int,
) -> Seq<char> {
    "{\"contract_name\":\""@ + esc(name) + "\""@ + ",\"abi\":\""@ + esc(abi) + "\""@
        + ",\"bytecode\":\""@ + esc(bytecode) + "\""@ + ",\"address\":\""@ + esc(address) + "\""@
        + ",\"deployed_at\":"@ + dec_digits_i64(deployed_at) + "}"@
}

pub fn render_stored_record(a: &StorableArtifactData) -> (r: String)
    ensures
        r@ == stored_record_spec(
            a.contract_name@,
            a.abi@,
            a.bytecode@,
            a.address@,
            a.deployed_at as int,
        ),
{
    let mut out = String::from_str("{\"contract_name\":\"");
    append_escaped(&mut out, a.contract_name.as_str());
    out.append("\"");
    out.append(",\"abi\":\"");
    append_escaped(&mut out, a.abi.as_str());
    out.append("\"");
    out.append(",\"bytecode\":\"");
    append_escaped(&mut out, a.bytecode.as_str());
    out.append("\"");
    out.append(",\"address\":\"");
    append_escaped(&mut out, a.address.as_str());
    out.append("\"");
    out.append(",\"deployed_at\":");
    let d = i64_to_dec(a.deployed_at);
    out.append(d.as_str());
    out.append("}");
    proof {
        assert(out@ =~= stored_record_spec(
            a.contract_name@,
            a.abi@,
            a.bytecode@,
            a.address@,
            a.deployed_at as int,
        ));
    }
    out
}

/// Reads a canonical address-keyed record back; accepts exactly what the
/// serializer writes.
pub open spec fn parse_stored_spec(s: Seq<char>) -> Option<
    (Seq<char>, Seq<char>, Seq<char>, Seq<char>, i64),
> {
    let l1 = "{\"contract_name\":\""@;
    if !lit_at(s, 0, l1) {
        None
    } else {
        match scan_string(s, l1.len() as int) {
            Option::None => None,
            Option::Some((name, j1)) => {
                let l2 = ",\"abi\":\""@;
                if !lit_at(s, j1, l2) {
                    None
                } else {
                    match scan_string(s, j1 + l2.len()) {
                        Option::None => None,
                        Option::Some((abi, j2)) => {
                            let l3 = ",\"bytecode\":\""@;
                            if !lit_at(s, j2, l3) {
                                None
                            } else {
                                match scan_string(s, j2 + l3.len()) {
                                    Option::None => None,
                                    Option::Some((bytecode, j3)) => {
                                        let l4 = ",\"address\":\""@;
                                        if !lit_at(s, j3, l4) {
                                            None
                                        } else {
                                            match scan_string(s, j3 + l4.len()) {
                                                Option::None => None,
                                                Option::Some((address, j4)) => {
                                                    let l5 = ",\"deployed_at\":"@;
                                                    if !lit_at(s, j4, l5) {
                                                        None
                                                    } else {
                                                        match parse_i64_at_spec(s, j4 + l5.len()) {
                                                            Option::None => None,
                                                            Option::Some((v, j5)) => {
                                                                if j5 + 1 == s.len() && s[j5]
                                                                    == '}' {
                                                                    Some(
                                                                        (
                                                                            name,
                                                                            abi,
                                                                            bytecode,
                                                                            address,
                                                                            v,
                                                                        ),
                                                                    )
                                                                } else {
                                                                    None
                                                                }
                                                            },
                                                        }
                                                    }
                                                },
                                            }
                                        }
                                    },
                                }
                            }
                        },
                    }
                }
            },
        }
    }
}

pub fn parse_stored_record(s: &str) -> (r: Option<StorableArtifactData>)
    ensures
        (r matches Some(a) ==> parse_stored_spec(s@) == Some(
            (a.contract_name@, a.abi@, a.bytecode@, a.address@, a.deployed_at),
        )),
        (r is None ==> parse_stored_spec(s@) is None),
{
    let n: usize = s.unicode_len();
    let p0 = match expect_lit(s, 0, "{\"contract_name\":\"") {
        Option::Some(p) => p,
        Option::None => {
            return None;
        },
    };
    proof {
        lemma_scan_string_bounds(s@, p0 as int);
    }
    let (name, j1) = match scan_string_at(s, p0) {
        Option::Some(x) => x,
        Option::None => {
            return None;
        },
    };
    let p1 = match expect_lit(s, j1, ",\"abi\":\"") {
        Option::Some(p) => p,
        Option::None => {
            return None;
        },
    };
    proof {
        lemma_scan_string_bounds(s@, p1 as int);
    }
    let (abi, j2) = match scan_string_at(s, p1) {
        Option::Some(x) => x,
        Option::None => {
            return None;
        },
    };
    let p2 = match expect_lit(s, j2, ",\"bytecode\":\"") {
        Option::Some(p) => p,
        Option::None => {
            return None;
        },
    };
    proof {
        lemma_scan_string_bounds(s@, p2 as int);
    }
    let (bytecode, j3) = match scan_string_at(s, p2) {
        Option::Some(x) => x,
        Option::None => {
            return None;
        },
    };
    let p3 = match expect_lit(s, j3, ",\"address\":\"") {
        Option::Some(p) => p,
        Option::None => {
            return None;
        },
    };
    proof {
        lemma_scan_string_bounds(s@, p3 as int);
    }
    let (address, j4) = match scan_string_at(s, p3) {
        Option::Some(x) => x,
        Option::None => {
            return None;
        },
    };
    let p4 = match expect_lit(s, j4, ",\"deployed_at\":") {
        Option::Some(p) => p,
        Option::None => {
            return None;
        },
    };
    let (v, j5) = match parse_i64_at(s, p4) {
        Option::Some(x) => x,
        Option::None => {
            return None;
        },
    };
    if j5 < n && j5 + 1 == n && s.get_char(j5) == '}' {
        Some(
            StorableArtifactData {
                contract_name: name,
                abi,
                bytecode,
                address,
                deployed_at: v,
            },
        )
    } else {
        None
    }
}

proof fn lemma_parse_i64_digits(s: Seq<char>, i: int, n: i64)
    requires
        0 <= i,
        i + dec_digits_i64(n as int).len() <= s.len(),
        s.subrange(i, i + dec_digits_i64(n as int).len()) == dec_digits_i64(n as int),
        i + dec_digits_i64(n as int).len() == s.len() || digit_val(
            s[i + dec_digits_i64(n as int).len()],
        ) < 0,
    ensures
        parse_i64_at_spec(s, i) == Some((n, i + dec_digits_i64(n as int).len())),
{
    let d = dec_digits_i64(n as int);
    assert forall|k: int| 0 <= k < d.len() implies s[i + k] == d[k] by {
        assert(s.subrange(i, i + d.len())[k] == s[i + k]);
    }
    if n >= 0 {
        let m = n as nat;
        lemma_dec_digits_val(m);
        assert(d == dec_digits(m));
        assert(s[i + 0] == d[0] && i + 0 == i);
        assert(digit_val(s[i]) >= 0);
        assert(s[i] != '-');
        assert forall|k: int| i <= k < i + d.len() implies digit_val(#[trigger] s[k]) >= 0 by {
            assert(s[k] == d[k - i]);
        }
        lemma_digit_run_end(s, i, i + d.len());
        assert(s.subrange(i, i + d.len()) =~= dec_digits(m));
        assert(dec_val(s.subrange(i, i + d.len())) == m);
        assert(parse_u64_at_spec(s, i) == Some((n as u64, i + d.len())));
    } else {
        let m = (-(n as int)) as nat;
        lemma_dec_digits_val(m);
        assert(d == seq!['-'] + dec_digits(m));
        assert(s[i + 0] == d[0] && i + 0 == i);
        assert(s[i] == '-');
        assert forall|k: int| i + 1 <= k < i + d.len() implies digit_val(#[trigger] s[k]) >= 0 by {
            assert(s[k] == d[k - i]);
            assert(d[k - i] == dec_digits(m)[k - i - 1]);
        }
        lemma_digit_run_end(s, i + 1, i + d.len());
        assert(s.subrange(i + 1, i + d.len()) =~= dec_digits(m)) by {
            assert forall|k: int| 0 <= k < dec_digits(m).len() implies s.subrange(
                i + 1,
                i + d.len(),
            )[k] == dec_digits(m)[k] by {
                assert(s.subrange(i + 1, i + d.len())[k] == s[i + 1 + k]);
                assert(s[i + 1 + k] == d[k + 1]);
            }
        }
        assert(dec_val(s.subrange(i + 1, i + d.len())) == m);
        assert(m <= 9223372036854775808);
        assert(parse_u64_at_spec(s, i + 1) == Some((m as u64, i + d.len())));
        assert((-((m as u64) as int)) as i64 == n);
    }
}

/// Writing an address-keyed record and reading it back recovers every
/// field: name, interface text, bytecode, address, and deployment time.
#[verifier::rlimit(80)]
pub proof fn lemma_stored_record_round_trip(
    name: Seq<char>,
    abi: Seq<char>,
    bytecode: Seq<char>,
    address: Seq<char>,
    deployed_at: i64,
)
    requires
        valid_chars(name),
        valid_chars(abi),
        valid_chars(bytecode),
        valid_chars(address),
    ensures
        parse_stored_spec(
            stored_record_spec(name, abi, bytecode, address, deployed_at as int),
        ) == Some((name, abi, bytecode, address, deployed_at)),
{
    reveal_strlit("{\"contract_name\":\"");
    reveal_strlit("\"");
    reveal_strlit(",\"abi\":\"");
    reveal_strlit(",\"bytecode\":\"");
    reveal_strlit(",\"address\":\"");
    reveal_strlit(",\"deployed_at\":");
    reveal_strlit("}");
    let l1 = "{\"contract_name\":\""@;
    let q = "\""@;
    let l2 = ",\"abi\":\""@;
    let l3 = ",\"bytecode\":\""@;
    let l4 = ",\"address\":\""@;
    let l5 = ",\"deployed_at\":"@;
    let rb = "}"@;
    let e1 = esc(name);
    let e2 = esc(abi);
    let e3 = esc(bytecode);
    let e4 = esc(address);
    let d = dec_digits_i64(deployed_at as int);
    let s = stored_record_spec(name, abi, bytecode, address, deployed_at as int);
    let o1 = l1.len() as int;
    let p1 = o1 + e1.len() + 1;
    let o2 = p1 + l2.len();
    let p2 = o2 + e2.len() + 1;
    let o3 = p2 + l3.len();
    let p3 = o3 + e3.len() + 1;
    let o4 = p3 + l4.len();
    let p4 = o4 + e4.len() + 1;
    let o5 = p4 + l5.len();
    let j6 = o5 + d.len();
    assert(s.len() == j6 + 1);
    assert(lit_at(s, 0, l1)) by {
        assert(s.subrange(0, o1) =~= l1) by {
            assert forall|k: int| 0 <= k < o1 implies s.subrange(0, o1)[k] == l1[k] by {
                assert(s.subrange(0, o1)[k] == s[k]);
            }
        }
    }
    assert(s.subrange(o1, p1) =~= e1.push('"')) by {
        assert forall|k: int| 0 <= k < e1.len() + 1 implies s.subrange(o1, p1)[k] == e1.push(
            '"',
        )[k] by {
            assert(s.subrange(o1, p1)[k] == s[o1 + k]);
            if k < e1.len() {
                assert(s[o1 + k] == e1[k]);
            } else {
                assert(s[o1 + k] == q[0]);
            }
        }
    }
    lemma_scan_esc(s, name, o1);
    assert(lit_at(s, p1, l2)) by {
        assert(s.subrange(p1, o2) =~= l2) by {
            assert forall|k: int| 0 <= k < l2.len() implies s.subrange(p1, o2)[k] == l2[k] by {
                assert(s.subrange(p1, o2)[k] == s[p1 + k]);
            }
        }
    }
    assert(s.subrange(o2, p2) =~= e2.push('"')) by {
        assert forall|k: int| 0 <= k < e2.len() + 1 implies s.subrange(o2, p2)[k] == e2.push(
            '"',
        )[k] by {
            assert(s.subrange(o2, p2)[k] == s[o2 + k]);
            if k < e2.len() {
                assert(s[o2 + k] == e2[k]);
            } else {
                assert(s[o2 + k] == q[0]);
            }
        }
    }
    lemma_scan_esc(s, abi, o2);
    assert(lit_at(s, p2, l3)) by {
        assert(s.subrange(p2, o3) =~= l3) by {
            assert forall|k: int| 0 <= k < l3.len() implies s.subrange(p2, o3)[k] == l3[k] by {
                assert(s.subrange(p2, o3)[k] == s[p2 + k]);
            }
        }
    }
    assert(s.subrange(o3, p3) =~= e3.push('"')) by {
        assert forall|k: int| 0 <= k < e3.len() + 1 implies s.subrange(o3, p3)[k] == e3.push(
            '"',
        )[k] by {
            assert(s.subrange(o3, p3)[k] == s[o3 + k]);
            if k < e3.len() {
                assert(s[o3 + k] == e3[k]);
            } else {
                assert(s[o3 + k] == q[0]);
            }
        }
    }
    lemma_scan_esc(s, bytecode, o3);
    assert(lit_at(s, p3, l4)) by {
        assert(s.subrange(p3, o4) =~= l4) by {
            assert forall|k: int| 0 <= k < l4.len() implies s.subrange(p3, o4)[k] == l4[k] by {
                assert(s.subrange(p3, o4)[k] == s[p3 + k]);
            }
        }
    }
    assert(s.subrange(o4, p4) =~= e4.push('"')) by {
        assert forall|k: int| 0 <= k < e4.len() + 1 implies s.subrange(o4, p4)[k] == e4.push(
            '"',
        )[k] by {
            assert(s.subrange(o4, p4)[k] == s[o4 + k]);
            if k < e4.len() {
                assert(s[o4 + k] == e4[k]);
            } else {
                assert(s[o4 + k] == q[0]);
            }
        }
    }
    lemma_scan_esc(s, address, o4);
    assert(lit_at(s, p4, l5)) by {
        assert(s.subrange(p4, o5) =~= l5) by {
            assert forall|k: int| 0 <= k < l5.len() implies s.subrange(p4, o5)[k] == l5[k] by {
                assert(s.subrange(p4, o5)[k] == s[p4 + k]);
            }
        }
    }
    assert(s[j6] == rb[0]);
    assert(digit_val('}') < 0);
    assert(s.subrange(o5, j6) =~= d) by {
        assert forall|k: int| 0 <= k < d.len() implies s.subrange(o5, j6)[k] == d[k] by {
            assert(s.subrange(o5, j6)[k] == s[o5 + k]);
        }
    }
    lemma_parse_i64_digits(s, o5, deployed_at);
    assert(parse_stored_spec(s) == Some((name, abi, bytecode, address, deployed_at)));
}

/// The record path of the address-keyed strategy:
/// `{root}/{contract_name}-{address}.json`.
pub open spec fn stored_path_spec(root: Seq<char>, name: Seq<char>, address: Seq<char>) -> Seq<
    char,
> {
    root + "/"@ + name + "-"@ + address + ".json"@
}

/// Plans the store of one compiled artifact under the address-keyed
/// strategy, with the deployment address and time the host observed. The
/// host creates the root if absent and writes the record atomically.
pub fn store_artifact(
    artifact: &CompilationOutput,
    address: &str,
    deployed_at: i64,
    deployments_dir: &str,
) -> (p: StorePlan)
    ensures
        p.directory@ == deployments_dir@,
        p.file_path@ == stored_path_spec(deployments_dir@, artifact.contract_name@, address@),
        p.record@ == stored_record_spec(
            artifact.contract_name@,
            artifact.abi@,
            artifact.bytecode@,
            address@,
            deployed_at as int,
        ),
{
    let directory = String::from_str(deployments_dir);
    let mut file_path = String::from_str(deployments_dir);
    file_path.append("/");
    file_path.append(artifact.contract_name.as_str());
    file_path.append("-");
    file_path.append(address);
    file_path.append(".json");
    let record = render_stored_record(
        &StorableArtifactData {
            contract_name: artifact.contract_name.clone(),
            abi: artifact.abi.clone(),
            bytecode: artifact.bytecode.clone(),
            address: String::from_str(address),
            deployed_at,
        },
    );
    StorePlan { directory, file_path, record }
}

} // verus!
