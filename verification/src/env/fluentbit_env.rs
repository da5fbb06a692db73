//! The Fluent Bit configuration file.

use vstd::prelude::*;
use vstd::string::*;

use crate::config::rules;
use crate::config::Config;
use crate::text::{self, decimal_text, join};

verus! {

/// Why no Fluent Bit configuration can be generated.
#[derive(Debug, Clone, Copy)]
pub enum FluentbitGenError {
    MissingCert(&'static str),
}

impl FluentbitGenError {
    pub open spec fn text(self) -> Seq<char> {
        match self {
            FluentbitGenError::MissingCert(name) => "missing TLS config: "@ + name@,
        }
    }

    /// The error as a message for people.
    pub fn to_string(&self) -> (r: String)
        ensures
            r@ == self.text(),
    {
        match self {
            FluentbitGenError::MissingCert(name) => join("missing TLS config: ", name),
        }
    }
}

/// One list item per filter entry.
pub open spec fn filter_items(f: Seq<String>) -> Seq<char>
    decreases f.len(),
{
    if f.len() == 0 {
        Seq::empty()
    } else {
        filter_items(f.drop_last()) + "        - "@ + f.last()@ + "\n"@
    }
}

/// The filter list of the systemd input, which is left out where it is empty.
pub open spec fn filter_block(f: Option<Seq<String>>) -> Seq<char> {
    match f {
        Some(v) => if v.len() == 0 {
            Seq::empty()
        } else {
            "      systemd_filter:\n"@ + filter_items(v)
        },
        None => Seq::empty(),
    }
}

/// What an optional setting holds.
pub open spec fn value_of(o: Option<String>) -> Seq<char> {
    match o {
        Some(s) => s@,
        None => Seq::empty(),
    }
}

pub open spec fn input_block(config: Config) -> Seq<char> {
    "service:\n  flush: 1\n  log_level: info\n\npipeline:\n  inputs:\n    - name: systemd\n      tag: host.*\n      read_from_tail: off\n"@
        + filter_block(config.fluentbit.filters())
}

pub open spec fn output_block(config: Config) -> Seq<char> {
    "\n  outputs:\n    - name: forward\n      match: '*'\n      host: "@ + config.fluentbit.host@
        + "\n      port: "@ + text::decimal(config.fluentbit.port as nat) + "\n"@
}

pub open spec fn tls_block(config: Config) -> Seq<char> {
    (if config.fluentbit.tls_verify {
        "      tls: on\n      tls.verify: on\n      tls.ca_file: "@
    } else {
        "      tls: on\n      tls.verify: off\n      tls.ca_file: "@
    }) + value_of(config.general.ca_cert_path) + "\n      tls.crt_file: "@ + value_of(
        config.general.client_cert_path,
    ) + "\n      tls.key_file: "@ + value_of(config.general.client_key_path) + "\n"@
}

/// The whole configuration file.
pub open spec fn document(config: Config) -> Seq<char> {
    input_block(config) + output_block(config) + if config.fluentbit.tls {
        tls_block(config)
    } else {
        Seq::empty()
    }
}

/// The first TLS setting that is absent or empty.
pub open spec fn missing_cert(config: Config) -> Option<Seq<char>> {
    if !rules::present(config.general.ca_cert_path) {
        Some("general.ca_cert_path"@)
    } else if !rules::present(config.general.client_cert_path) {
        Some("general.client_cert_path"@)
    } else if !rules::present(config.general.client_key_path) {
        Some("general.client_key_path"@)
    } else {
        None
    }
}

/// For every valid configuration that asks for Fluent Bit, its configuration can be
/// generated: with TLS, no certificate is missing.
pub proof fn valid_configuration_misses_no_cert(config: Config)
    requires
        config.valid(),
        config.fluentbit.enabled,
    ensures
        config.fluentbit.tls ==> missing_cert(config) is None,
{
}

/// How many characters end a line.
pub open spec fn line_ends(s: Seq<char>) -> nat
    decreases s.len(),
{
    if s.len() == 0 {
        0
    } else if s.last() == '\n' || s.last() == '\r' {
        line_ends(s.drop_last()) + 1
    } else {
        line_ends(s.drop_last())
    }
}

/// How many filter entries the file lists.
pub open spec fn filter_count(config: Config) -> nat {
    match config.fluentbit.filters() {
        Some(v) => v.len(),
        None => 0,
    }
}

/// The values of a valid configuration add no lines to the file: how many lines it has
/// depends only on the number of filter entries and on whether TLS is used and
/// verified. So no value can bring in a setting of its own.
pub proof fn valid_values_add_no_lines(a: Config, b: Config)
    requires
        a.valid(),
        b.valid(),
        a.fluentbit.enabled,
        b.fluentbit.enabled,
        a.fluentbit.tls == b.fluentbit.tls,
        a.fluentbit.tls_verify == b.fluentbit.tls_verify,
        filter_count(a) == filter_count(b),
    ensures
        line_ends(document(a)) == line_ends(document(b)),
{
    lemma_document_lines(a);
    lemma_document_lines(b);
}

proof fn lemma_line_ends_of_sum(s: Seq<char>, t: Seq<char>)
    ensures
        line_ends(s + t) == line_ends(s) + line_ends(t),
    decreases t.len(),
{
    if t.len() == 0 {
        assert(s + t =~= s);
    } else {
        assert((s + t).drop_last() =~= s + t.drop_last());
        lemma_line_ends_of_sum(s, t.drop_last());
    }
}

proof fn lemma_one_line(s: Seq<char>)
    requires
        !rules::has_newline(s),
    ensures
        line_ends(s) == 0,
    decreases s.len(),
{
    if s.len() > 0 {
        assert(s.contains(s.last()));
        assert forall|c: char| s.drop_last().contains(c) implies s.contains(c) by {
            let i = choose|i: int| 0 <= i < s.drop_last().len() && s.drop_last()[i] == c;
            assert(s[i] == c);
        }
        lemma_one_line(s.drop_last());
    }
}

proof fn lemma_number_is_one_line(n: nat)
    ensures
        line_ends(text::decimal(n)) == 0,
{
    text::decimal_writes_its_number(n);
    lemma_one_line(text::decimal(n));
}

/// The line ends of one filter entry's frame.
spec fn item_lines() -> nat {
    line_ends("        - "@) + line_ends("\n"@)
}

proof fn lemma_filter_items_lines(f: Seq<String>)
    requires
        forall|i: int| 0 <= i < f.len() ==> rules::good_filter(#[trigger] f[i]@),
    ensures
        line_ends(filter_items(f)) == f.len() * item_lines(),
    decreases f.len(),
{
    if f.len() > 0 {
        let init = f.drop_last();
        assert forall|i: int| 0 <= i < init.len() implies rules::good_filter(
            #[trigger] init[i]@,
        ) by {
            assert(init[i] == f[i]);
        }
        lemma_filter_items_lines(init);
        let last = f.last()@;
        assert(rules::good_filter(f[f.len() - 1]@));
        lemma_one_line(last);
        lemma_line_ends_of_sum(filter_items(init), "        - "@);
        lemma_line_ends_of_sum(filter_items(init) + "        - "@, last);
        lemma_line_ends_of_sum(filter_items(init) + "        - "@ + last, "\n"@);
        assert(f.len() * item_lines() == init.len() * item_lines() + item_lines())
            by (nonlinear_arith)
            requires
                f.len() == init.len() + 1,
        ;
    }
}

/// The line ends of the file, by its fixed parts.
spec fn frame_lines(filters: nat, tls: bool, verify: bool) -> nat {
    line_ends(
        "service:\n  flush: 1\n  log_level: info\n\npipeline:\n  inputs:\n    - name: systemd\n      tag: host.*\n      read_from_tail: off\n"@,
    ) + (if filters == 0 {
        0
    } else {
        line_ends("      systemd_filter:\n"@) + filters * item_lines()
    }) + line_ends("\n  outputs:\n    - name: forward\n      match: '*'\n      host: "@)
        + line_ends("\n      port: "@) + line_ends("\n"@) + (if tls {
        line_ends(
            if verify {
                "      tls: on\n      tls.verify: on\n      tls.ca_file: "@
            } else {
                "      tls: on\n      tls.verify: off\n      tls.ca_file: "@
            },
        ) + line_ends("\n      tls.crt_file: "@) + line_ends("\n      tls.key_file: "@)
            + line_ends("\n"@)
    } else {
        0
    })
}

proof fn lemma_document_lines(config: Config)
    requires
        config.valid(),
        config.fluentbit.enabled,
    ensures
        line_ends(document(config)) == frame_lines(
            filter_count(config),
            config.fluentbit.tls,
            config.fluentbit.tls_verify,
        ),
{
    let f = config.fluentbit;
    let input = input_block(config);
    let output = output_block(config);
    let service =
        "service:\n  flush: 1\n  log_level: info\n\npipeline:\n  inputs:\n    - name: systemd\n      tag: host.*\n      read_from_tail: off\n"@;
    lemma_line_ends_of_sum(service, filter_block(f.filters()));
    match f.filters() {
        Some(v) => {
            if v.len() > 0 {
                lemma_filter_items_lines(v);
                lemma_line_ends_of_sum("      systemd_filter:\n"@, filter_items(v));
            }
        },
        None => {},
    }
    let head = "\n  outputs:\n    - name: forward\n      match: '*'\n      host: "@;
    let port = text::decimal(f.port as nat);
    lemma_one_line(f.host@);
    lemma_number_is_one_line(f.port as nat);
    lemma_line_ends_of_sum(head, f.host@);
    lemma_line_ends_of_sum(head + f.host@, "\n      port: "@);
    lemma_line_ends_of_sum(head + f.host@ + "\n      port: "@, port);
    lemma_line_ends_of_sum(head + f.host@ + "\n      port: "@ + port, "\n"@);
    lemma_line_ends_of_sum(input, output);
    if f.tls {
        let g = config.general;
        let (ca, cert, key) = (
            value_of(g.ca_cert_path),
            value_of(g.client_cert_path),
            value_of(g.client_key_path),
        );
        lemma_one_line(ca);
        lemma_one_line(cert);
        lemma_one_line(key);
        let first = if f.tls_verify {
            "      tls: on\n      tls.verify: on\n      tls.ca_file: "@
        } else {
            "      tls: on\n      tls.verify: off\n      tls.ca_file: "@
        };
        let crt_file = "\n      tls.crt_file: "@;
        let key_file = "\n      tls.key_file: "@;
        lemma_line_ends_of_sum(first, ca);
        lemma_line_ends_of_sum(first + ca, crt_file);
        lemma_line_ends_of_sum(first + ca + crt_file, cert);
        lemma_line_ends_of_sum(first + ca + crt_file + cert, key_file);
        lemma_line_ends_of_sum(first + ca + crt_file + cert + key_file, key);
        lemma_line_ends_of_sum(first + ca + crt_file + cert + key_file + key, "\n"@);
        lemma_line_ends_of_sum(input + output, tls_block(config));
    } else {
        assert(document(config) =~= input + output);
    }
}

fn push_filter_items(out: &mut String, f: &Vec<String>)
    ensures
        final(out)@ == old(out)@ + filter_items(f@),
{
    assert(out@ =~= old(out)@ + filter_items(f@.take(0)));
    for i in 0..f.len()
        invariant
            out@ == old(out)@ + filter_items(f@.take(i as int)),
    {
        proof {
            assert(f@.take(i + 1).drop_last() =~= f@.take(i as int));
            assert(f@.take(i + 1).last() == f@[i as int]);
        }
        let ghost before = filter_items(f@.take(i as int));
        out.append("        - ");
        out.append(f[i].as_str());
        out.append("\n");
        assert(out@ =~= old(out)@ + (before + "        - "@ + f@[i as int]@ + "\n"@));
    }
    assert(f@.take(f@.len() as int) =~= f@);
}

/// A setting that is present and not empty.
fn non_empty(o: &Option<String>) -> (r: Option<&str>)
    ensures
        r is Some <==> rules::present(*o),
        r matches Some(s) ==> s@ == value_of(*o),
{
    match o {
        Some(s) => if s.as_str().is_empty() {
            None
        } else {
            Some(s.as_str())
        },
        None => None,
    }
}

/// Generate the Fluent Bit YAML config from `config`.
///
/// With `fluentbit.tls`, all three of `general.{ca,client_cert,client_key}_path`
/// have to be set and not empty; the error names the first one that is not.
pub fn generate_fluentbit_config(config: &Config) -> (r: Result<String, FluentbitGenError>)
    ensures
        r is Ok <==> !config.fluentbit.tls || missing_cert(*config) is None,
        match r {
            Ok(s) => s@ == document(*config),
            Err(FluentbitGenError::MissingCert(name)) => missing_cert(*config) == Some(name@),
        },
{
    let f = &config.fluentbit;
    let g = &config.general;
    let mut out: String =
        "service:\n  flush: 1\n  log_level: info\n\npipeline:\n  inputs:\n    - name: systemd\n      tag: host.*\n      read_from_tail: off\n".to_string();
    let ghost head = out@;
    if let Some(filters) = &f.systemd_filter {
        if filters.len() > 0 {
            out.append("      systemd_filter:\n");
            push_filter_items(&mut out, filters);
        }
    }
    assert(out@ =~= input_block(*config));
    out.append("\n  outputs:\n    - name: forward\n      match: '*'\n      host: ");
    out.append(f.host.as_str());
    out.append("\n      port: ");
    out.append(decimal_text(f.port as u128).as_str());
    out.append("\n");
    assert(out@ =~= input_block(*config) + output_block(*config));
    if !f.tls {
        assert(out@ =~= document(*config));
        return Ok(out);
    }
    let ca = match non_empty(&g.ca_cert_path) {
        Some(s) => s,
        None => {
            return Err(FluentbitGenError::MissingCert("general.ca_cert_path"));
        },
    };
    let cert = match non_empty(&g.client_cert_path) {
        Some(s) => s,
        None => {
            return Err(FluentbitGenError::MissingCert("general.client_cert_path"));
        },
    };
    let key = match non_empty(&g.client_key_path) {
        Some(s) => s,
        None => {
            return Err(FluentbitGenError::MissingCert("general.client_key_path"));
        },
    };
    if f.tls_verify {
        out.append("      tls: on\n      tls.verify: on\n      tls.ca_file: ");
    } else {
        out.append("      tls: on\n      tls.verify: off\n      tls.ca_file: ");
    }
    out.append(ca);
    out.append("\n      tls.crt_file: ");
    out.append(cert);
    out.append("\n      tls.key_file: ");
    out.append(key);
    out.append("\n");
    assert(out@ =~= document(*config));
    Ok(out)
}

/// The generated file, as it is written: the systemd input with a list item for each
/// filter entry in turn, the forward output with the host and the port, and, where TLS is
/// used, whether the server is verified and the three paths, each behind its own key.
pub proof fn generated_file_is_written_out(config: &Config, r: Result<String, FluentbitGenError>)
    requires
        call_ensures(generate_fluentbit_config, (config,), r),
    ensures
        r matches Ok(s) ==> s@
            == "service:\n  flush: 1\n  log_level: info\n\npipeline:\n  inputs:\n    - name: systemd\n      tag: host.*\n      read_from_tail: off\n"@
            + filter_block(config.fluentbit.filters())
            + "\n  outputs:\n    - name: forward\n      match: '*'\n      host: "@
            + config.fluentbit.host@ + "\n      port: "@ + text::decimal(
            config.fluentbit.port as nat,
        ) + "\n"@ + (if config.fluentbit.tls {
            "      tls: on\n      tls.verify: "@ + (if config.fluentbit.tls_verify {
                "on"@
            } else {
                "off"@
            }) + "\n      tls.ca_file: "@ + (config.general.ca_cert_path->0)@
                + "\n      tls.crt_file: "@ + (config.general.client_cert_path->0)@
                + "\n      tls.key_file: "@ + (config.general.client_key_path->0)@ + "\n"@
        } else {
            Seq::empty()
        }),
        filter_block(None) == Seq::<char>::empty(),
        filter_block(Some(Seq::empty())) == Seq::<char>::empty(),
        forall|f: Seq<String>|
            f.len() > 0 ==> #[trigger] filter_block(Some(f)) == "      systemd_filter:\n"@
                + filter_items(f),
        filter_items(Seq::empty()) == Seq::<char>::empty(),
        forall|f: Seq<String>, entry: String|
            #[trigger] filter_items(f.push(entry)) == filter_items(f) + "        - "@ + entry@
                + "\n"@,
{
    if let Ok(s) = r {
        if config.fluentbit.tls {
            let g = config.general;
            let (ca, cert, key) = (
                value_of(g.ca_cert_path),
                value_of(g.client_cert_path),
                value_of(g.client_key_path),
            );
            reveal_strlit("on");
            reveal_strlit("off");
            reveal_strlit("      tls: on\n      tls.verify: ");
            reveal_strlit("\n      tls.ca_file: ");
            reveal_strlit("      tls: on\n      tls.verify: on\n      tls.ca_file: ");
            reveal_strlit("      tls: on\n      tls.verify: off\n      tls.ca_file: ");
            let first = if config.fluentbit.tls_verify {
                "      tls: on\n      tls.verify: on\n      tls.ca_file: "@
            } else {
                "      tls: on\n      tls.verify: off\n      tls.ca_file: "@
            };
            let verified = if config.fluentbit.tls_verify {
                "on"@
            } else {
                "off"@
            };
            assert(first =~= "      tls: on\n      tls.verify: "@ + verified
                + "\n      tls.ca_file: "@);
            assert(tls_block(*config) == "      tls: on\n      tls.verify: "@ + verified
                + "\n      tls.ca_file: "@ + ca + "\n      tls.crt_file: "@ + cert
                + "\n      tls.key_file: "@ + key + "\n"@);
        }
        let head =
            "service:\n  flush: 1\n  log_level: info\n\npipeline:\n  inputs:\n    - name: systemd\n      tag: host.*\n      read_from_tail: off\n"@
            + filter_block(config.fluentbit.filters());
        assert(head + output_block(*config) =~= head
            + "\n  outputs:\n    - name: forward\n      match: '*'\n      host: "@
            + config.fluentbit.host@ + "\n      port: "@ + text::decimal(
            config.fluentbit.port as nat,
        ) + "\n"@);
    }
    assert forall|f: Seq<String>, entry: String|
        #[trigger] filter_items(f.push(entry)) == filter_items(f) + "        - "@ + entry@
            + "\n"@ by {
        assert(f.push(entry).drop_last() =~= f);
    }
}

/// Without TLS a file can always be generated. With it, the first of the three paths that
/// is missing or empty is named, and a file is generated where none is.
pub proof fn missing_paths_are_named_in_order(
    config: &Config,
    r: Result<String, FluentbitGenError>,
)
    requires
        call_ensures(generate_fluentbit_config, (config,), r),
    ensures
        !config.fluentbit.tls ==> r is Ok,
        config.fluentbit.tls ==> {
            let ca = config.general.ca_cert_path matches Some(s) && s@.len() > 0;
            let cert = config.general.client_cert_path matches Some(s) && s@.len() > 0;
            let key = config.general.client_key_path matches Some(s) && s@.len() > 0;
            &&& r is Ok <==> ca && cert && key
            &&& !ca ==> (r matches Err(FluentbitGenError::MissingCert(name)) && name@
                == "general.ca_cert_path"@)
            &&& ca && !cert ==> (r matches Err(FluentbitGenError::MissingCert(name)) && name@
                == "general.client_cert_path"@)
            &&& ca && cert && !key ==> (r matches Err(FluentbitGenError::MissingCert(name)) && name@
                == "general.client_key_path"@)
        },
{
}

} // verus!
