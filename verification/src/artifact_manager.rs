//! Time-bucketed artifact persistence: the storage key is a date-named
//! subdirectory derived from the compilation timestamp (UTC), the filename
//! is `{contract_name}-{timestamp}.json`, and the record is a canonical
//! JSON document. This module computes where the record goes and what it
//! holds; the host performs the directory creation and the atomic write.

use vstd::prelude::*;
use vstd::string::StrSliceExecFns;
use vstd::string::StringExecFns;
use crate::calendar::date_bucket;
use crate::calendar::date_bucket_spec;
use crate::chars::dec_digits;
use crate::chars::dec_val;
use crate::chars::digit_val;
use crate::chars::lemma_dec_digits_val;
use crate::chars::u64_to_dec;
use crate::deploy_engine::CompilationOutput;
use crate::jsonrec::append_escaped;
use crate::jsonrec::esc;
use crate::jsonrec::expect_lit;
use crate::jsonrec::lemma_digit_run_end;
use crate::jsonrec::lemma_digit_run_end_bounds;
use crate::jsonrec::lemma_scan_esc;
use crate::jsonrec::lemma_scan_string_bounds;
use crate::jsonrec::lit_at;
use crate::jsonrec::parse_u64_at;
use crate::jsonrec::parse_u64_at_spec;
use crate::jsonrec::scan_string;
use crate::jsonrec::scan_string_at;
use crate::jsonrec::valid_chars;

verus! {

/// What one time-bucketed artifact record holds.
pub struct StoredArtifact {
    pub contract_name: String,
    pub abi: String,
    pub bytecode: String,
    pub compilation_timestamp: u64,
}

/// The canonical JSON text of a stored artifact record.
pub open spec fn saved_record_spec(
    name: Seq<char>,
    abi: Seq<char>,
    bytecode: Seq<char>,
    ts: nat,
) -> Seq<char> {
    "{\"contractName\":\""@ + esc(name) + "\""@ + ",\"abi\":\""@ + esc(abi) + "\""@
        + ",\"bytecode\":\""@ + esc(bytecode) + "\""@ + ",\"compilationTimestamp\":"@ + dec_digits(
        ts,
    ) + "}"@
}

pub fn render_saved_record(a: &StoredArtifact) -> (r: String)
    ensures
        r@ == saved_record_spec(a.contract_name@, a.abi@, a.bytecode@, a.compilation_timestamp as nat),
{
    let mut out = String::from_str("{\"contractName\":\"");
    append_escaped(&mut out, a.contract_name.as_str());
    out.append("\"");
    out.append(",\"abi\":\"");
    append_escaped(&mut out, a.abi.as_str());
    out.append("\"");
    out.append(",\"bytecode\":\"");
    append_escaped(&mut out, a.bytecode.as_str());
    out.append("\"");
    out.append(",\"compilationTimestamp\":");
    let ts = u64_to_dec(a.compilation_timestamp);
    out.append(ts.as_str());
    out.append("}");
    proof {
        assert(out@ =~= saved_record_spec(
            a.contract_name@,
            a.abi@,
            a.bytecode@,
            a.compilation_timestamp as nat,
        ));
    }
    out
}

/// Reads a canonical stored artifact record back; accepts exactly what the
/// serializer writes.
pub open spec fn parse_saved_spec(s: Seq<char>) -> Option<(Seq<char>, Seq<char>, Seq<char>, u64)> {
    let l1 = "{\"contractName\":\""@;
    if !lit_at(s, 0, l1) {
        None
    } else {
        match scan_string(s, l1.len() as int) {
            Option::None => None,
            Option::Some((name, j1)) => {
                let l2 = ",\"abi\":\""@;
                if !lit_at(s, j1, l2) {
                    None
                } else {
                    match scan_string(s, j1 + l2.len()) {
                        Option::None => None,
                        Option::Some((abi, j2)) => {
                            let l3 = ",\"bytecode\":\""@;
                            if !lit_at(s, j2, l3) {
                                None
                            } else {
                                match scan_string(s, j2 + l3.len()) {
                                    Option::None => None,
                                    Option::Some((bytecode, j3)) => {
                                        let l4 = ",\"compilationTimestamp\":"@;
                                        if !lit_at(s, j3, l4) {
                                            None
                                        } else {
                                            match parse_u64_at_spec(s, j3 + l4.len()) {
                                                Option::None => None,
                                                Option::Some((v, j4)) => {
                                                    if j4 + 1 == s.len() && s[j4] == '}' {
                                                        Some((name, abi, bytecode, v))
                                                    } else {
                                                        None
                                                    }
                                                },
                                            }
                                        }
                                    },
                                }
                            }
                        },
                    }
                }
            },
        }
    }
}

pub fn parse_saved_record(s: &str) -> (r: Option<StoredArtifact>)
    ensures
        (r matches Some(a) ==> parse_saved_spec(s@) == Some(
            (a.contract_name@, a.abi@, a.bytecode@, a.compilation_timestamp),
        )),
        (r is None ==> parse_saved_spec(s@) is None),
{
    let n: usize = s.unicode_len();
    let p0 = match expect_lit(s, 0, "{\"contractName\":\"") {
        Option::Some(p) => p,
        Option::None => {
            return None;
        },
    };
    proof {
        lemma_scan_string_bounds(s@, p0 as int);
    }
    let (name, j1) = match scan_string_at(s, p0) {
        Option::Some(x) => x,
        Option::None => {
            return None;
        },
    };
    let p1 = match expect_lit(s, j1, ",\"abi\":\"") {
        Option::Some(p) => p,
        Option::None => {
            return None;
        },
    };
    proof {
        lemma_scan_string_bounds(s@, p1 as int);
    }
    let (abi, j2) = match scan_string_at(s, p1) {
        Option::Some(x) => x,
        Option::None => {
            return None;
        },
    };
    let p2 = match expect_lit(s, j2, ",\"bytecode\":\"") {
        Option::Some(p) => p,
        Option::None => {
            return None;
        },
    };
    proof {
        lemma_scan_string_bounds(s@, p2 as int);
    }
    let (bytecode, j3) = match scan_string_at(s, p2) {
        Option::Some(x) => x,
        Option::None => {
            return None;
        },
    };
    let p3 = match expect_lit(s, j3, ",\"compilationTimestamp\":") {
        Option::Some(p) => p,
        Option::None => {
            return None;
        },
    };
    proof {
        lemma_digit_run_end_bounds(s@, p3 as int);
    }
    let (v, j4) = match parse_u64_at(s, p3) {
        Option::Some(x) => x,
        Option::None => {
            return None;
        },
    };
    if j4 < n && j4 + 1 == n && s.get_char(j4) == '}' {
        Some(
            StoredArtifact {
                contract_name: name,
                abi,
                bytecode,
                compilation_timestamp: v,
            },
        )
    } else {
        None
    }
}

/// Writing a record and reading it back recovers every field: the parse of
/// the canonical record text yields the same name, interface text,
/// bytecode, and timestamp.
pub proof fn lemma_saved_record_round_trip(
    name: Seq<char>,
    abi: Seq<char>,
    bytecode: Seq<char>,
    ts: u64,
)
    requires
        valid_chars(name),
        valid_chars(abi),
        valid_chars(bytecode),
    ensures
        parse_saved_spec(saved_record_spec(name, abi, bytecode, ts as nat)) == Some(
            (name, abi, bytecode, ts),
        ),
{
    reveal_strlit("{\"contractName\":\"");
    reveal_strlit("\"");
    reveal_strlit(",\"abi\":\"");
    reveal_strlit(",\"bytecode\":\"");
    reveal_strlit(",\"compilationTimestamp\":");
    reveal_strlit("}");
    let l1 = "{\"contractName\":\""@;
    let q = "\""@;
    let l2 = ",\"abi\":\""@;
    let l3 = ",\"bytecode\":\""@;
    let l4 = ",\"compilationTimestamp\":"@;
    let rb = "}"@;
    let e1 = esc(name);
    let e2 = esc(abi);
    let e3 = esc(bytecode);
    let d = dec_digits(ts as nat);
    let s = saved_record_spec(name, abi, bytecode, ts as nat);
    let o1 = l1.len() as int;
    let p1 = o1 + e1.len() + 1;
    let o2 = p1 + l2.len();
    let p2 = o2 + e2.len() + 1;
    let o3 = p2 + l3.len();
    let p3 = o3 + e3.len() + 1;
    let o4 = p3 + l4.len();
    let j5 = o4 + d.len();
    assert(s.len() == j5 + 1);
    assert(lit_at(s, 0, l1)) by {
        assert(s.subrange(0, o1) =~= l1) by {
            assert forall|k: int| 0 <= k < o1 implies s.subrange(0, o1)[k] == l1[k] by {
                assert(s.subrange(0, o1)[k] == s[k]);
                assert(s[k] == l1[k]);
            }
        }
    }
    assert(s.subrange(o1, p1) =~= e1.push('"')) by {
        assert forall|k: int| 0 <= k < e1.len() + 1 implies s.subrange(o1, p1)[k] == e1.push(
            '"',
        )[k] by {
            assert(s.subrange(o1, p1)[k] == s[o1 + k]);
            if k < e1.len() {
                assert(s[o1 + k] == e1[k]);
            } else {
                assert(s[o1 + k] == q[0]);
            }
        }
    }
    lemma_scan_esc(s, name, o1);
    assert(lit_at(s, p1, l2)) by {
        assert(s.subrange(p1, o2) =~= l2) by {
            assert forall|k: int| 0 <= k < l2.len() implies s.subrange(p1, o2)[k] == l2[k] by {
                assert(s.subrange(p1, o2)[k] == s[p1 + k]);
            }
        }
    }
    assert(s.subrange(o2, p2) =~= e2.push('"')) by {
        assert forall|k: int| 0 <= k < e2.len() + 1 implies s.subrange(o2, p2)[k] == e2.push(
            '"',
        )[k] by {
            assert(s.subrange(o2, p2)[k] == s[o2 + k]);
            if k < e2.len() {
                assert(s[o2 + k] == e2[k]);
            } else {
                assert(s[o2 + k] == q[0]);
            }
        }
    }
    lemma_scan_esc(s, abi, o2);
    assert(lit_at(s, p2, l3)) by {
        assert(s.subrange(p2, o3) =~= l3) by {
            assert forall|k: int| 0 <= k < l3.len() implies s.subrange(p2, o3)[k] == l3[k] by {
                assert(s.subrange(p2, o3)[k] == s[p2 + k]);
            }
        }
    }
    assert(s.subrange(o3, p3) =~= e3.push('"')) by {
        assert forall|k: int| 0 <= k < e3.len() + 1 implies s.subrange(o3, p3)[k] == e3.push(
            '"',
        )[k] by {
            assert(s.subrange(o3, p3)[k] == s[o3 + k]);
            if k < e3.len() {
                assert(s[o3 + k] == e3[k]);
            } else {
                assert(s[o3 + k] == q[0]);
            }
        }
    }
    lemma_scan_esc(s, bytecode, o3);
    assert(lit_at(s, p3, l4)) by {
        assert(s.subrange(p3, o4) =~= l4) by {
            assert forall|k: int| 0 <= k < l4.len() implies s.subrange(p3, o4)[k] == l4[k] by {
                assert(s.subrange(p3, o4)[k] == s[p3 + k]);
            }
        }
    }
    lemma_dec_digits_val(ts as nat);
    assert(s.subrange(o4, j5) =~= d) by {
        assert forall|k: int| 0 <= k < d.len() implies s.subrange(o4, j5)[k] == d[k] by {
            assert(s.subrange(o4, j5)[k] == s[o4 + k]);
        }
    }
    assert(s[j5] == rb[0]);
    assert(digit_val('}') < 0);
    assert forall|k: int| o4 <= k < j5 implies digit_val(#[trigger] s[k]) >= 0 by {
        assert(s.subrange(o4, j5)[k - o4] == s[k]);
        assert(d[k - o4] == s[k]);
    }
    lemma_digit_run_end(s, o4, j5);
    assert(s.subrange(o4, j5) == d);
    assert(dec_val(s.subrange(o4, j5)) == ts);
    assert(parse_u64_at_spec(s, o4) == Some((ts, j5)));
    assert(parse_saved_spec(s) == Some((name, abi, bytecode, ts)));
}

/// Where one time-bucketed save lands and what it writes: the bucket
/// directory under the configured root, the record's full path, and the
/// record text. The host creates the directory if absent and writes the
/// record atomically (write to a temporary name, then rename).
pub struct StorePlan {
    pub directory: String,
    pub file_path: String,
    pub record: String,
}

/// The bucket directory for a timestamp: `{base}/{YYYY-MM-DD}`.
pub open spec fn saved_dir_spec(base: Seq<char>, ts: nat) -> Seq<char> {
    base + "/"@ + date_bucket_spec(ts)
}

/// The record path: `{base}/{YYYY-MM-DD}/{contract_name}-{timestamp}.json`.
pub open spec fn saved_path_spec(base: Seq<char>, name: Seq<char>, ts: nat) -> Seq<char> {
    saved_dir_spec(base, ts) + "/"@ + name + "-"@ + dec_digits(ts) + ".json"@
}

/// Plans the save of one compilation artifact under the time-bucketed
/// strategy: the bucket is a pure function of the timestamp, the filename
/// pairs the contract name with the timestamp, and the record is the
/// canonical JSON text.
pub fn save_artifact(
    artifact: &CompilationOutput,
    base_deployments_path: &str,
    timestamp_secs: u64,
) -> (p: StorePlan)
    ensures
        p.directory@ == saved_dir_spec(base_deployments_path@, timestamp_secs as nat),
        p.file_path@ == saved_path_spec(
            base_deployments_path@,
            artifact.contract_name@,
            timestamp_secs as nat,
        ),
        p.record@ == saved_record_spec(
            artifact.contract_name@,
            artifact.abi@,
            artifact.bytecode@,
            timestamp_secs as nat,
        ),
{
    let mut directory = String::from_str(base_deployments_path);
    directory.append("/");
    let bucket = date_bucket(timestamp_secs);
    directory.append(bucket.as_str());
    let mut file_path = directory.clone();
    file_path.append("/");
    file_path.append(artifact.contract_name.as_str());
    file_path.append("-");
    let ts = u64_to_dec(timestamp_secs);
    file_path.append(ts.as_str());
    file_path.append(".json");
    let record = render_saved_record(
        &StoredArtifact {
            contract_name: artifact.contract_name.clone(),
            abi: artifact.abi.clone(),
            bytecode: artifact.bytecode.clone(),
            compilation_timestamp: timestamp_secs,
        },
    );
    StorePlan { directory, file_path, record }
}

/// The storage key derivation is a pure function of its inputs: equal
/// timestamps give equal bucket directories and equal record paths,
/// independent of call order or concurrency.
pub proof fn lemma_storage_key_deterministic(
    base: Seq<char>,
    name: Seq<char>,
    ts1: u64,
    ts2: u64,
)
    requires
        ts1 == ts2,
    ensures
        saved_dir_spec(base, ts1 as nat) == saved_dir_spec(base, ts2 as nat),
        saved_path_spec(base, name, ts1 as nat) == saved_path_spec(base, name, ts2 as nat),
{
}

} // verus!
