//! Capability checks on calls of host-runtime intrinsics and of stdlib network wrappers.
use vstd::prelude::*;
use crate::context::{Binding, FunctionSig, LowerContext, NetBindingOrigin, binding_index, const_index, find_binding, find_const, find_signature, signature_index};
use crate::diagnostics::Diagnostic;
use crate::manifest::{CapabilityConfig, CapabilityKind, capability_enabled, capability_name};
use crate::model::{Expr, LiteralValue, Type};
use crate::render::{concat, debug_quoted, decimal, push_decimal, push_signed_decimal, quote, signed_decimal};
use crate::syntax;
use crate::text::{
    any_eq_ignore_ascii_case, contains_ignore_ascii_case, find_char, find_pair, first_index_of,
    first_pair_index, has_prefix, last_index_of, parse_u16, parse_u16_spec, rfind_char, str_eq,
    strip_prefix,
};

verus! {

/// `d` is a `capability` diagnostic with `message`, located at `line`, `column`.
pub open spec fn capability_error(d: Diagnostic, message: Seq<char>, line: usize, column: usize) -> bool {
    &&& d.kind@ == "capability"@
    &&& d.message@ == message
    &&& d.line == Some(line)
    &&& d.column == Some(column)
    &&& d.path is None
    &&& d.code is None
    &&& d.help is None
    &&& d.related@.len() == 0
}

/// `d` is a `type` diagnostic with `message`, located at `line`, `column`.
pub open spec fn type_error(d: Diagnostic, message: Seq<char>, line: usize, column: usize) -> bool {
    &&& d.kind@ == "type"@
    &&& d.message@ == message
    &&& d.line == Some(line)
    &&& d.column == Some(column)
    &&& d.path is None
    &&& d.code is None
    &&& d.help is None
    &&& d.related@.len() == 0
}

/// `r` is `Ok` exactly when `violation` is absent, and otherwise the capability
/// diagnostic that states it.
pub open spec fn capability_outcome(r: Result<(), Diagnostic>, violation: Option<Seq<char>>, line: usize, column: usize) -> bool {
    match violation {
        None => r is Ok,
        Some(message) => r is Err && capability_error(r->Err_0, message, line, column),
    }
}

fn capability_diagnostic(message: String, line: usize, column: usize) -> (d: Diagnostic)
    ensures
        capability_error(d, message@, line, column),
{
    Diagnostic::new("capability", message).with_span(line, column)
}

/// `call to "<name>" requires ` followed by `rest`.
pub open spec fn call_requires(name: Seq<char>, rest: Seq<char>) -> Seq<char> {
    "call to "@ + debug_quoted(name) + " requires "@ + rest
}

fn call_requires_message(name: &str, rest: &str) -> (m: String)
    ensures
        m@ == call_requires(name@, rest@),
{
    let m = String::from_str("call to ");
    let q = quote(name);
    let m = concat(m, q.as_str());
    let m = concat(m, " requires ");
    concat(m, rest)
}

/// What a missing capability is reported as requiring.
pub open spec fn capability_requirement(kind: CapabilityKind) -> Seq<char> {
    if kind == CapabilityKind::Env {
        "[capabilities].env = [\"NAME\"] or env_unrestricted = true"@
    } else {
        "[capabilities]."@ + capability_name(kind) + " = true"@
    }
}

/// Requires the capability `kind` for a call of `intrinsic_name`.
pub fn require_capability(capabilities: &CapabilityConfig, kind: CapabilityKind, intrinsic_name: &str, line: usize, column: usize) -> (r: Result<(), Diagnostic>)
    ensures
        capability_outcome(
            r,
            if capability_enabled(*capabilities, kind) { None } else { Some(call_requires(intrinsic_name@, capability_requirement(kind))) },
            line,
            column,
        ),
{
    if capabilities.enabled(kind) {
        return Ok(());
    }
    let requirement = if kind == CapabilityKind::Env {
        String::from_str("[capabilities].env = [\"NAME\"] or env_unrestricted = true")
    } else {
        let m = concat(String::from_str("[capabilities]."), kind.name());
        concat(m, " = true")
    };
    Err(capability_diagnostic(call_requires_message(intrinsic_name, requirement.as_str()), line, column))
}

/// The message for types that an FFI signature cannot carry.
pub open spec fn ffi_message() -> Seq<char> {
    "FFI signatures only support int, bool, string, ptr<T>, and mutptr<T> in stage1"@
}

/// Whether a source type may appear in an FFI signature.
pub open spec fn ffi_type_name_ok(ty: syntax::TypeName) -> bool
    decreases ty,
{
    match ty {
        syntax::TypeName::Int | syntax::TypeName::Numeric(_) | syntax::TypeName::Bool
        | syntax::TypeName::String | syntax::TypeName::Str => true,
        syntax::TypeName::Ptr(inner) => ffi_type_name_ok(*inner),
        syntax::TypeName::MutPtr(inner) => ffi_type_name_ok(*inner),
        _ => false,
    }
}

/// Whether a lowered type may appear in an FFI signature.
pub open spec fn ffi_type_ok(ty: Type) -> bool
    decreases ty,
{
    match ty {
        Type::Int | Type::Numeric(_) | Type::Bool | Type::String | Type::Str => true,
        Type::Ptr(inner) => ffi_type_ok(*inner),
        Type::MutPtr(inner) => ffi_type_ok(*inner),
        _ => false,
    }
}

fn ffi_error(line: usize, column: usize) -> (d: Diagnostic)
    ensures
        type_error(d, ffi_message(), line, column),
{
    Diagnostic::new("type", String::from_str("FFI signatures only support int, bool, string, ptr<T>, and mutptr<T> in stage1")).with_span(line, column)
}

/// Checks that a source type may appear in an FFI signature.
pub fn validate_ffi_type_name(ty: &syntax::TypeName, line: usize, column: usize) -> (r: Result<(), Diagnostic>)
    ensures
        r is Ok <==> ffi_type_name_ok(*ty),
        r is Err ==> type_error(r->Err_0, ffi_message(), line, column),
    decreases ty,
{
    match ty {
        syntax::TypeName::Int | syntax::TypeName::Numeric(_) | syntax::TypeName::Bool
        | syntax::TypeName::String | syntax::TypeName::Str => Ok(()),
        syntax::TypeName::Ptr(inner) | syntax::TypeName::MutPtr(inner) => validate_ffi_type_name(inner, line, column),
        _ => Err(ffi_error(line, column)),
    }
}

/// Checks that a lowered type may appear in an FFI signature.
pub fn validate_ffi_type(ty: &Type, line: usize, column: usize) -> (r: Result<(), Diagnostic>)
    ensures
        r is Ok <==> ffi_type_ok(*ty),
        r is Err ==> type_error(r->Err_0, ffi_message(), line, column),
    decreases ty,
{
    match ty {
        Type::Int | Type::Numeric(_) | Type::Bool | Type::String | Type::Str => Ok(()),
        Type::Ptr(inner) | Type::MutPtr(inner) => validate_ffi_type(inner, line, column),
        _ => Err(ffi_error(line, column)),
    }
}

/// The position of the first parameter, from position `i` on, whose type an FFI
/// signature cannot carry.
pub open spec fn ffi_param_violation(params: Vec<syntax::Param>, i: int) -> Option<(usize, usize)>
    decreases params.len() - i,
{
    if i < 0 || i >= params.len() {
        None
    } else if !ffi_type_name_ok(params[i].ty) {
        Some((params[i].line, params[i].column))
    } else {
        ffi_param_violation(params, i + 1)
    }
}

/// Where an extern function's signature first leaves the FFI types: at the function for
/// its return type, else at the first such parameter.
pub open spec fn ffi_signature_violation(function: syntax::Function, return_ty: Type) -> Option<(usize, usize)> {
    if !ffi_type_ok(return_ty) {
        Some((function.line, function.column))
    } else {
        ffi_param_violation(function.params, 0)
    }
}

/// Checks an extern function's signature: its return type, then each parameter in order.
pub fn validate_ffi_signature(function: &syntax::Function, return_ty: &Type) -> (r: Result<(), Diagnostic>)
    ensures
        match ffi_signature_violation(*function, *return_ty) {
            None => r is Ok,
            Some((line, column)) => r is Err && type_error(r->Err_0, ffi_message(), line, column),
        },
{
    validate_ffi_type(return_ty, function.line, function.column)?;
    let mut i: usize = 0;
    while i < function.params.len()
        invariant
            i <= function.params.len(),
            ffi_type_ok(*return_ty),
            ffi_param_violation(function.params, 0) == ffi_param_violation(function.params, i as int),
        decreases function.params.len() - i,
    {
        let param = &function.params[i];
        let checked = validate_ffi_type_name(&param.ty, param.line, param.column);
        if checked.is_err() {
            return checked;
        }
        i = i + 1;
    }
    Ok(())
}

/// The string value of an expression that is a string literal.
pub open spec fn string_literal(e: Expr) -> Option<Seq<char>> {
    match e {
        Expr::Literal { value: LiteralValue::String(v), .. } => Some(v@),
        _ => None,
    }
}

/// The integer value of an expression that is an integer literal.
pub open spec fn int_literal(e: Expr) -> Option<i64> {
    match e {
        Expr::Literal { value: LiteralValue::Int(v), .. } => Some(v),
        _ => None,
    }
}

/// What the host allowlist finds wrong with a host argument, if anything.
pub open spec fn host_violation(capabilities: CapabilityConfig, name: Seq<char>, host: Expr, allow_dynamic_host: bool) -> Option<Seq<char>> {
    if capabilities.net_hosts.len() == 0 {
        if string_literal(host) is Some || allow_dynamic_host {
            None
        } else {
            Some(call_requires(name, "a string literal when [capabilities].net hosts are unrestricted"@))
        }
    } else {
        match string_literal(host) {
            Some(v) => if contains_ignore_ascii_case(capabilities.net_hosts@, v) {
                None
            } else {
                Some(call_requires(name, "[capabilities].net.hosts to include "@ + debug_quoted(v)))
            },
            None => if allow_dynamic_host {
                None
            } else {
                Some(call_requires(name, "a string literal listed in [capabilities].net.hosts"@))
            },
        }
    }
}

/// Checks a host argument against `[capabilities].net.hosts`.
pub fn validate_net_host_allowlist_hir(capabilities: &CapabilityConfig, intrinsic_name: &str, host: &Expr, line: usize, column: usize, allow_dynamic_host: bool) -> (r: Result<(), Diagnostic>)
    ensures
        capability_outcome(r, host_violation(*capabilities, intrinsic_name@, *host, allow_dynamic_host), line, column),
{
    if capabilities.net_hosts.len() == 0 {
        return match host {
            Expr::Literal { value: LiteralValue::String(_), .. } => Ok(()),
            _ => {
                if allow_dynamic_host {
                    Ok(())
                } else {
                    Err(capability_diagnostic(call_requires_message(intrinsic_name, "a string literal when [capabilities].net hosts are unrestricted"), line, column))
                }
            },
        };
    }
    match host {
        Expr::Literal { value: LiteralValue::String(value), .. } => {
            if any_eq_ignore_ascii_case(&capabilities.net_hosts, value.as_str()) {
                Ok(())
            } else {
                let rest = concat(String::from_str("[capabilities].net.hosts to include "), quote(value.as_str()).as_str());
                Err(capability_diagnostic(call_requires_message(intrinsic_name, rest.as_str()), line, column))
            }
        },
        _ => {
            if allow_dynamic_host {
                Ok(())
            } else {
                Err(capability_diagnostic(call_requires_message(intrinsic_name, "a string literal listed in [capabilities].net.hosts"), line, column))
            }
        },
    }
}

/// The scheme, the rest of the URL, and the default port of an http(s) URL.
pub open spec fn url_scheme(url: Seq<char>) -> Option<(Seq<char>, Seq<char>, u16)> {
    if has_prefix(url, "http://"@) {
        Some(("http"@, url.subrange(7, url.len() as int), 80u16))
    } else if has_prefix(url, "https://"@) {
        Some(("https"@, url.subrange(8, url.len() as int), 443u16))
    } else {
        None
    }
}

/// The text before the first `/`, or all of it.
pub open spec fn before_slash(rest: Seq<char>) -> Seq<char> {
    match first_index_of(rest, '/') {
        Some(i) => rest.subrange(0, i),
        None => rest,
    }
}

/// The text after the first `/`, or nothing.
pub open spec fn after_slash(rest: Seq<char>) -> Seq<char> {
    match first_index_of(rest, '/') {
        Some(i) => rest.subrange(i + 1, rest.len() as int),
        None => Seq::empty(),
    }
}

/// The host and port of a URL authority: split at its last `:`, or the default port.
pub open spec fn authority_host_port(authority: Seq<char>, default_port: u16) -> Option<(Seq<char>, u16)> {
    if authority.len() == 0 {
        None
    } else {
        match last_index_of(authority, ':') {
            Some(j) => if j == 0 {
                None
            } else {
                match parse_u16_spec(authority.subrange(j + 1, authority.len() as int)) {
                    Some(p) => Some((authority.subrange(0, j), p)),
                    None => None,
                }
            },
            None => Some((authority, default_port)),
        }
    }
}

/// The scheme, host, port and path of a static http(s) URL; the path is the text
/// after the first `/` of the part after the scheme, or `/` when that is empty.
pub open spec fn http_url_parts(url: Seq<char>) -> Option<(Seq<char>, Seq<char>, u16, Seq<char>)> {
    match url_scheme(url) {
        None => None,
        Some((scheme, rest, default_port)) => {
            match authority_host_port(before_slash(rest), default_port) {
                None => None,
                Some((host, port)) => Some((
                    scheme,
                    host,
                    port,
                    if after_slash(rest).len() == 0 { "/"@ } else { after_slash(rest) },
                )),
            }
        },
    }
}

/// Splits a static http(s) URL into scheme, host, port and path.
pub fn split_http_url_literal<'a>(url: &'a str) -> (r: Option<(&'static str, &'a str, u16, &'a str)>)
    ensures
        r is Some <==> http_url_parts(url@) is Some,
        r is Some ==> ({
            let (scheme, host, port, path) = r->0;
            let parts = http_url_parts(url@)->0;
            scheme@ == parts.0 && host@ == parts.1 && port == parts.2 && path@ == parts.3
        }),
{
    proof {
        reveal_strlit("http://");
        reveal_strlit("https://");
        reveal_strlit("http");
        reveal_strlit("https");
        reveal_strlit("/");
    }
    let (scheme, rest, default_port): (&'static str, &'a str, u16) = match strip_prefix(url, "http://") {
        Some(rest) => ("http", rest, 80),
        None => match strip_prefix(url, "https://") {
            Some(rest) => ("https", rest, 443),
            None => return None,
        },
    };
    let n = rest.unicode_len();
    let (authority, path) = match find_char(rest, '/') {
        Some(i) => (rest.substring_char(0, i), rest.substring_char(i + 1, n)),
        None => (rest, rest.substring_char(n, n)),
    };
    proof {
        assert(authority@ == before_slash(rest@));
        assert(path@ =~= after_slash(rest@));
    }
    let an = authority.unicode_len();
    if an == 0 {
        return None;
    }
    let (host, port) = match rfind_char(authority, ':') {
        Some(j) => {
            if j == 0 {
                return None;
            }
            match parse_u16(authority.substring_char(j + 1, an)) {
                Some(p) => (authority.substring_char(0, j), p),
                None => return None,
            }
        },
        None => (authority, default_port),
    };
    let path = if path.unicode_len() == 0 { "/" } else { path };
    Some((scheme, host, port, path))
}

/// Whether `port` is listed in `[capabilities].net.ports`.
pub fn port_listed(ports: &Vec<u16>, port: u16) -> (r: bool)
    ensures
        r == ports@.contains(port),
{
    let mut i: usize = 0;
    while i < ports.len()
        invariant
            i <= ports.len(),
            forall|j: int| 0 <= j < i ==> ports@[j] != port,
        decreases ports.len() - i,
    {
        if ports[i] == port {
            proof { assert(ports@[i as int] == port); }
            return true;
        }
        i = i + 1;
    }
    false
}

/// What the host and port allowlists find wrong with a parsed static target, if anything.
pub open spec fn target_violation(capabilities: CapabilityConfig, name: Seq<char>, host: Seq<char>, port: u16) -> Option<Seq<char>> {
    if capabilities.net_hosts.len() != 0 && !contains_ignore_ascii_case(capabilities.net_hosts@, host) {
        Some(call_requires(name, "[capabilities].net.hosts to include "@ + debug_quoted(host)))
    } else if capabilities.net_ports.len() != 0 && !capabilities.net_ports@.contains(port) {
        Some(call_requires(name, "[capabilities].net.ports to include "@ + decimal(port as nat)))
    } else {
        None
    }
}

fn check_static_target(capabilities: &CapabilityConfig, intrinsic_name: &str, host: &str, port: u16, line: usize, column: usize) -> (r: Result<(), Diagnostic>)
    ensures
        capability_outcome(r, target_violation(*capabilities, intrinsic_name@, host@, port), line, column),
{
    if capabilities.net_hosts.len() != 0 && !any_eq_ignore_ascii_case(&capabilities.net_hosts, host) {
        let rest = concat(String::from_str("[capabilities].net.hosts to include "), quote(host).as_str());
        return Err(capability_diagnostic(call_requires_message(intrinsic_name, rest.as_str()), line, column));
    }
    if capabilities.net_ports.len() != 0 && !port_listed(&capabilities.net_ports, port) {
        let mut rest = String::from_str("[capabilities].net.ports to include ");
        push_decimal(&mut rest, port as u64);
        return Err(capability_diagnostic(call_requires_message(intrinsic_name, rest.as_str()), line, column));
    }
    Ok(())
}

/// What the net allowlists find wrong with an `http_get` URL argument, if anything.
pub open spec fn http_get_violation(capabilities: CapabilityConfig, name: Seq<char>, url: Expr, allow_dynamic_url: bool) -> Option<Seq<char>> {
    match string_literal(url) {
        Some(value) => match http_url_parts(value) {
            None => Some(debug_quoted(name) + " requires a static http:// or https:// URL literal"@),
            Some((_, host, port, _)) => target_violation(capabilities, name, host, port),
        },
        None => if allow_dynamic_url {
            None
        } else if capabilities.net_hosts.len() == 0 && capabilities.net_ports.len() == 0 {
            Some(call_requires(name, "a static URL literal when [capabilities].net is unrestricted"@))
        } else {
            Some(call_requires(name, "a static URL literal when [capabilities].net host or port allowlists are configured"@))
        },
    }
}

/// Checks the URL argument of an HTTP GET against the net allowlists.
pub fn validate_http_get_net_allowlist_hir(capabilities: &CapabilityConfig, intrinsic_name: &str, url: &Expr, line: usize, column: usize, allow_dynamic_url: bool) -> (r: Result<(), Diagnostic>)
    ensures
        capability_outcome(r, http_get_violation(*capabilities, intrinsic_name@, *url, allow_dynamic_url), line, column),
{
    match url {
        Expr::Literal { value: LiteralValue::String(value), .. } => {
            match split_http_url_literal(value.as_str()) {
                None => {
                    let m = concat(quote(intrinsic_name), " requires a static http:// or https:// URL literal");
                    Err(capability_diagnostic(m, line, column))
                },
                Some((_scheme, host, port, _path)) => check_static_target(capabilities, intrinsic_name, host, port, line, column),
            }
        },
        _ => {
            if allow_dynamic_url {
                Ok(())
            } else if capabilities.net_hosts.len() == 0 && capabilities.net_ports.len() == 0 {
                Err(capability_diagnostic(call_requires_message(intrinsic_name, "a static URL literal when [capabilities].net is unrestricted"), line, column))
            } else {
                Err(capability_diagnostic(call_requires_message(intrinsic_name, "a static URL literal when [capabilities].net host or port allowlists are configured"), line, column))
            }
        },
    }
}

/// The host and port of a static `host:port` or `[host]:port` socket address.
pub open spec fn socket_addr_parts(value: Seq<char>) -> Option<(Seq<char>, u16)> {
    if has_prefix(value, "["@) {
        let rest = value.subrange(1, value.len() as int);
        match first_pair_index(rest, ']', ':') {
            None => None,
            Some(k) => match parse_u16_spec(rest.subrange(k + 2, rest.len() as int)) {
                Some(p) => Some((rest.subrange(0, k), p)),
                None => None,
            },
        }
    } else {
        match last_index_of(value, ':') {
            None => None,
            Some(j) => if j == 0 {
                None
            } else {
                match parse_u16_spec(value.subrange(j + 1, value.len() as int)) {
                    Some(p) => Some((value.subrange(0, j), p)),
                    None => None,
                }
            },
        }
    }
}

/// Splits a static socket address into host and port.
pub fn split_socket_addr_literal(value: &str) -> (r: Option<(&str, u16)>)
    ensures
        r is Some <==> socket_addr_parts(value@) is Some,
        r is Some ==> ({
            let (host, port) = r->0;
            let (spec_host, spec_port) = socket_addr_parts(value@)->0;
            host@ == spec_host && port == spec_port
        }),
{
    proof { reveal_strlit("["); }
    if let Some(rest) = strip_prefix(value, "[") {
        let n = rest.unicode_len();
        let k = find_pair(rest, ']', ':')?;
        let port = parse_u16(rest.substring_char(k + 2, n))?;
        return Some((rest.substring_char(0, k), port));
    }
    let n = value.unicode_len();
    let j = rfind_char(value, ':')?;
    if j == 0 {
        return None;
    }
    let port = parse_u16(value.substring_char(j + 1, n))?;
    Some((value.substring_char(0, j), port))
}

/// What the net allowlists find wrong with a socket address argument, if anything.
pub open spec fn socket_violation(capabilities: CapabilityConfig, name: Seq<char>, socket_addr: Expr, allow_dynamic_socket: bool) -> Option<Seq<char>> {
    match string_literal(socket_addr) {
        Some(value) => match socket_addr_parts(value) {
            None => Some(call_requires(name, "a static host:port literal"@)),
            Some((host, port)) => target_violation(capabilities, name, host, port),
        },
        None => if allow_dynamic_socket {
            None
        } else if capabilities.net_hosts.len() == 0 && capabilities.net_ports.len() == 0 {
            Some(call_requires(name, "a static host:port literal when [capabilities].net is unrestricted"@))
        } else {
            Some(call_requires(name, "a static host:port literal when [capabilities].net host or port allowlists are configured"@))
        },
    }
}

/// Checks a socket address argument against the net allowlists.
pub fn validate_net_socket_allowlist_hir(capabilities: &CapabilityConfig, intrinsic_name: &str, socket_addr: &Expr, line: usize, column: usize, allow_dynamic_socket: bool) -> (r: Result<(), Diagnostic>)
    ensures
        capability_outcome(r, socket_violation(*capabilities, intrinsic_name@, *socket_addr, allow_dynamic_socket), line, column),
{
    match socket_addr {
        Expr::Literal { value: LiteralValue::String(value), .. } => {
            match split_socket_addr_literal(value.as_str()) {
                None => Err(capability_diagnostic(call_requires_message(intrinsic_name, "a static host:port literal"), line, column)),
                Some((host, port)) => check_static_target(capabilities, intrinsic_name, host, port, line, column),
            }
        },
        _ => {
            if allow_dynamic_socket {
                Ok(())
            } else if capabilities.net_hosts.len() == 0 && capabilities.net_ports.len() == 0 {
                Err(capability_diagnostic(call_requires_message(intrinsic_name, "a static host:port literal when [capabilities].net is unrestricted"), line, column))
            } else {
                Err(capability_diagnostic(call_requires_message(intrinsic_name, "a static host:port literal when [capabilities].net host or port allowlists are configured"), line, column))
            }
        },
    }
}

/// What the port allowlist finds wrong with a port argument, if anything.
pub open spec fn port_violation(capabilities: CapabilityConfig, name: Seq<char>, port: Expr, allow_dynamic_port: bool) -> Option<Seq<char>> {
    if capabilities.net_ports.len() == 0 {
        match int_literal(port) {
            Some(v) => if 0 <= v <= u16::MAX {
                None
            } else {
                Some(call_requires(name, "a valid u16 port, got "@ + signed_decimal(v as int)))
            },
            None => if allow_dynamic_port {
                None
            } else {
                Some(call_requires(name, "an integer literal when [capabilities].net ports are unrestricted"@))
            },
        }
    } else {
        match int_literal(port) {
            Some(v) => if 0 <= v <= u16::MAX && capabilities.net_ports@.contains(v as u16) {
                None
            } else {
                Some(call_requires(name, "[capabilities].net.ports to include "@ + signed_decimal(v as int)))
            },
            None => if allow_dynamic_port {
                None
            } else {
                Some(call_requires(name, "an integer literal listed in [capabilities].net.ports"@))
            },
        }
    }
}

/// Checks a port argument against `[capabilities].net.ports`.
pub fn validate_net_port_allowlist_hir(capabilities: &CapabilityConfig, intrinsic_name: &str, port: &Expr, line: usize, column: usize, allow_dynamic_port: bool) -> (r: Result<(), Diagnostic>)
    ensures
        capability_outcome(r, port_violation(*capabilities, intrinsic_name@, *port, allow_dynamic_port), line, column),
{
    if capabilities.net_ports.len() == 0 {
        return match port {
            Expr::Literal { value: LiteralValue::Int(value), .. } => {
                if 0 <= *value && *value <= 65535 {
                    Ok(())
                } else {
                    let mut rest = String::from_str("a valid u16 port, got ");
                    push_signed_decimal(&mut rest, *value);
                    Err(capability_diagnostic(call_requires_message(intrinsic_name, rest.as_str()), line, column))
                }
            },
            _ => {
                if allow_dynamic_port {
                    Ok(())
                } else {
                    Err(capability_diagnostic(call_requires_message(intrinsic_name, "an integer literal when [capabilities].net ports are unrestricted"), line, column))
                }
            },
        };
    }
    match port {
        Expr::Literal { value: LiteralValue::Int(value), .. } => {
            if 0 <= *value && *value <= 65535 && port_listed(&capabilities.net_ports, *value as u16) {
                Ok(())
            } else {
                let mut rest = String::from_str("[capabilities].net.ports to include ");
                push_signed_decimal(&mut rest, *value);
                Err(capability_diagnostic(call_requires_message(intrinsic_name, rest.as_str()), line, column))
            }
        },
        _ => {
            if allow_dynamic_port {
                Ok(())
            } else {
                Err(capability_diagnostic(call_requires_message(intrinsic_name, "an integer literal listed in [capabilities].net.ports"), line, column))
            }
        },
    }
}

/// The code being lowered is the function `name` of the source file `path`.
pub open spec fn at_function(ctx: LowerContext, path: Seq<char>, name: Seq<char>) -> bool {
    ctx.current_path@ == path && ctx.current_function is Some && ctx.current_function->0@ == name
}

fn in_function(ctx: &LowerContext, path: &str, name: &str) -> (r: bool)
    ensures
        r == at_function(*ctx, path@, name@),
{
    if !str_eq(ctx.current_path.as_str(), path) {
        return false;
    }
    match &ctx.current_function {
        Some(f) => str_eq(f.as_str(), name),
        None => false,
    }
}

/// The stdlib `net.resolve` wrapper is being lowered.
pub open spec fn net_host_wrapper(ctx: LowerContext) -> bool {
    at_function(ctx, "<stdlib>/net.ax"@, "resolve"@)
}

/// Whether the stdlib `net.resolve` wrapper is being lowered.
pub fn is_stdlib_net_host_wrapper(ctx: &LowerContext) -> (r: bool)
    ensures
        r == net_host_wrapper(*ctx),
{
    in_function(ctx, "<stdlib>/net.ax", "resolve")
}

/// Whether a dynamic host may be passed to a host intrinsic here.
pub fn stdlib_dynamic_net_host_allowed(_capabilities: &CapabilityConfig, ctx: &LowerContext) -> (r: bool)
    ensures
        r == net_host_wrapper(*ctx),
{
    is_stdlib_net_host_wrapper(ctx)
}

/// A stdlib wrapper that talks to a network peer is being lowered.
pub open spec fn net_peer_wrapper(ctx: LowerContext) -> bool {
    ||| at_function(ctx, "<stdlib>/net.ax"@, "tcp_dial"@)
    ||| at_function(ctx, "<stdlib>/net.ax"@, "udp_send_recv"@)
    ||| at_function(ctx, "<stdlib>/net_tcp.ax"@, "dial"@)
    ||| at_function(ctx, "<stdlib>/net_udp.ax"@, "send_recv"@)
    ||| at_function(ctx, "<stdlib>/async_net.ax"@, "tcp_dial"@)
    ||| at_function(ctx, "<stdlib>/async_net.ax"@, "udp_send_recv"@)
}

/// Whether a stdlib wrapper that talks to a network peer is being lowered.
pub fn is_stdlib_net_peer_wrapper(ctx: &LowerContext) -> (r: bool)
    ensures
        r == net_peer_wrapper(*ctx),
{
    in_function(ctx, "<stdlib>/net.ax", "tcp_dial") || in_function(ctx, "<stdlib>/net.ax", "udp_send_recv")
        || in_function(ctx, "<stdlib>/net_tcp.ax", "dial") || in_function(ctx, "<stdlib>/net_udp.ax", "send_recv")
        || in_function(ctx, "<stdlib>/async_net.ax", "tcp_dial") || in_function(ctx, "<stdlib>/async_net.ax", "udp_send_recv")
}

/// Whether a dynamic peer host may be passed to a peer intrinsic here.
pub fn stdlib_dynamic_net_peer_host_allowed(_capabilities: &CapabilityConfig, ctx: &LowerContext) -> (r: bool)
    ensures
        r == net_peer_wrapper(*ctx),
{
    is_stdlib_net_peer_wrapper(ctx)
}

/// Whether a dynamic peer port may be passed to a peer intrinsic here.
pub fn stdlib_dynamic_net_peer_port_allowed(_capabilities: &CapabilityConfig, ctx: &LowerContext) -> (r: bool)
    ensures
        r == net_peer_wrapper(*ctx),
{
    is_stdlib_net_peer_wrapper(ctx)
}

/// A stdlib wrapper that binds a local socket is being lowered.
pub open spec fn net_socket_wrapper(ctx: LowerContext) -> bool {
    ||| at_function(ctx, "<stdlib>/net_tcp.ax"@, "listen"@)
    ||| at_function(ctx, "<stdlib>/net_udp.ax"@, "bind"@)
    ||| at_function(ctx, "<stdlib>/net_udp.ax"@, "send_to"@)
    ||| at_function(ctx, "<stdlib>/async_net.ax"@, "listen"@)
}

/// Whether a stdlib wrapper that binds a local socket is being lowered.
pub fn is_stdlib_net_socket_wrapper(ctx: &LowerContext) -> (r: bool)
    ensures
        r == net_socket_wrapper(*ctx),
{
    in_function(ctx, "<stdlib>/net_tcp.ax", "listen") || in_function(ctx, "<stdlib>/net_udp.ax", "bind")
        || in_function(ctx, "<stdlib>/net_udp.ax", "send_to") || in_function(ctx, "<stdlib>/async_net.ax", "listen")
}

/// Neither a host nor a port allowlist is configured.
pub open spec fn net_unrestricted(capabilities: CapabilityConfig) -> bool {
    capabilities.net_hosts.len() == 0 && capabilities.net_ports.len() == 0
}

/// Whether neither a host nor a port allowlist is configured.
pub fn net_socket_allowlist_is_unrestricted(capabilities: &CapabilityConfig) -> (r: bool)
    ensures
        r == net_unrestricted(*capabilities),
{
    capabilities.net_hosts.len() == 0 && capabilities.net_ports.len() == 0
}

/// Whether a dynamic socket address may be passed to a socket intrinsic here.
pub fn stdlib_dynamic_net_socket_allowed(_capabilities: &CapabilityConfig, ctx: &LowerContext) -> (r: bool)
    ensures
        r == net_socket_wrapper(*ctx),
{
    is_stdlib_net_socket_wrapper(ctx)
}

/// The stdlib `http.get` wrapper is being lowered.
pub open spec fn http_get_wrapper(ctx: LowerContext) -> bool {
    at_function(ctx, "<stdlib>/http.ax"@, "get"@)
}

/// Whether the stdlib `http.get` wrapper is being lowered.
pub fn is_stdlib_http_get_wrapper(ctx: &LowerContext) -> (r: bool)
    ensures
        r == http_get_wrapper(*ctx),
{
    in_function(ctx, "<stdlib>/http.ax", "get")
}

/// A stdlib HTTP server wrapper is being lowered.
pub open spec fn http_socket_wrapper(ctx: LowerContext) -> bool {
    ||| at_function(ctx, "<stdlib>/http.ax"@, "listen"@)
    ||| at_function(ctx, "<stdlib>/http.ax"@, "serve"@)
    ||| at_function(ctx, "<stdlib>/http.ax"@, "serve_once"@)
}

/// Whether a stdlib HTTP server wrapper is being lowered.
pub fn is_stdlib_http_socket_wrapper(ctx: &LowerContext) -> (r: bool)
    ensures
        r == http_socket_wrapper(*ctx),
{
    in_function(ctx, "<stdlib>/http.ax", "listen") || in_function(ctx, "<stdlib>/http.ax", "serve")
        || in_function(ctx, "<stdlib>/http.ax", "serve_once")
}

/// Whether a dynamic socket address may be passed to an HTTP server intrinsic here.
pub fn stdlib_dynamic_http_socket_allowed(_capabilities: &CapabilityConfig, ctx: &LowerContext) -> (r: bool)
    ensures
        r == http_socket_wrapper(*ctx),
{
    is_stdlib_http_socket_wrapper(ctx)
}

/// The stdlib `process.run_status` wrapper is being lowered.
pub open spec fn process_wrapper(ctx: LowerContext) -> bool {
    at_function(ctx, "<stdlib>/process.ax"@, "run_status"@)
}

/// Whether the stdlib `process.run_status` wrapper is being lowered.
pub fn is_stdlib_process_wrapper(ctx: &LowerContext) -> (r: bool)
    ensures
        r == process_wrapper(*ctx),
{
    in_function(ctx, "<stdlib>/process.ax", "run_status")
}

/// The network wrapper group of a stdlib function, by source file and name:
/// 1 resolve, 2 peer, 3 bind, 4 send_to, 5 HTTP GET, 6 HTTP server, 0 none.
pub open spec fn wrapper_group(path: Seq<char>, name: Seq<char>) -> int {
    if path == "<stdlib>/net.ax"@ && name == "resolve"@ {
        1
    } else if (path == "<stdlib>/net.ax"@ && (name == "tcp_dial"@ || name == "udp_send_recv"@))
        || (path == "<stdlib>/net_tcp.ax"@ && name == "dial"@)
        || (path == "<stdlib>/net_udp.ax"@ && name == "send_recv"@)
        || (path == "<stdlib>/async_net.ax"@ && (name == "tcp_dial"@ || name == "udp_send_recv"@)) {
        2
    } else if (path == "<stdlib>/net_tcp.ax"@ && name == "listen"@)
        || (path == "<stdlib>/net_udp.ax"@ && name == "bind"@)
        || (path == "<stdlib>/async_net.ax"@ && name == "listen"@) {
        3
    } else if path == "<stdlib>/net_udp.ax"@ && name == "send_to"@ {
        4
    } else if path == "<stdlib>/http.ax"@ && name == "get"@ {
        5
    } else if path == "<stdlib>/http.ax"@ && (name == "listen"@ || name == "serve"@ || name == "serve_once"@) {
        6
    } else {
        0
    }
}

/// How many arguments a wrapper group's check reads.
pub open spec fn wrapper_args_needed(group: int) -> int {
    if group == 2 { 2 } else if group == 4 { 3 } else if group == 0 { 0 } else { 1 }
}

/// How many arguments the allowlist check of a stdlib network wrapper reads.
pub fn wrapper_arity(signature: &FunctionSig) -> (n: usize)
    ensures
        n as int == wrapper_args_needed(wrapper_group(signature.source_path@, signature.source_name@)),
{
    let group = group_of(signature.source_path.as_str(), signature.source_name.as_str());
    if group == 2 { 2 } else if group == 4 { 3 } else if group == 0 { 0 } else { 1 }
}

fn group_of(path: &str, name: &str) -> (g: u8)
    ensures
        g as int == wrapper_group(path@, name@),
{
    if str_eq(path, "<stdlib>/net.ax") && str_eq(name, "resolve") {
        1
    } else if (str_eq(path, "<stdlib>/net.ax") && (str_eq(name, "tcp_dial") || str_eq(name, "udp_send_recv")))
        || (str_eq(path, "<stdlib>/net_tcp.ax") && str_eq(name, "dial"))
        || (str_eq(path, "<stdlib>/net_udp.ax") && str_eq(name, "send_recv"))
        || (str_eq(path, "<stdlib>/async_net.ax") && (str_eq(name, "tcp_dial") || str_eq(name, "udp_send_recv"))) {
        2
    } else if (str_eq(path, "<stdlib>/net_tcp.ax") && str_eq(name, "listen"))
        || (str_eq(path, "<stdlib>/net_udp.ax") && str_eq(name, "bind"))
        || (str_eq(path, "<stdlib>/async_net.ax") && str_eq(name, "listen")) {
        3
    } else if str_eq(path, "<stdlib>/net_udp.ax") && str_eq(name, "send_to") {
        4
    } else if str_eq(path, "<stdlib>/http.ax") && str_eq(name, "get") {
        5
    } else if str_eq(path, "<stdlib>/http.ax") && (str_eq(name, "listen") || str_eq(name, "serve") || str_eq(name, "serve_once")) {
        6
    } else {
        0
    }
}

/// The local named by a variable reference holds the port of a loopback listener.
pub open spec fn loopback_listener_port(expr: Expr, env: Seq<Binding>) -> bool {
    match expr {
        Expr::VarRef { name, .. } => match binding_index(env, name@) {
            Some(i) => env[i].net_origin == Some(NetBindingOrigin::LoopbackTcpListenerPort),
            None => false,
        },
        _ => false,
    }
}

/// Whether `expr` names a local that holds the port of a loopback listener.
pub fn is_loopback_listener_port_expr(expr: &Expr, env: &Vec<Binding>) -> (r: bool)
    ensures
        r == loopback_listener_port(*expr, env@),
{
    match expr {
        Expr::VarRef { name, .. } => match find_binding(env, name.as_str()) {
            Some(i) => env[i].net_origin == Some(NetBindingOrigin::LoopbackTcpListenerPort),
            None => false,
        },
        _ => false,
    }
}

/// What the net allowlists find wrong with a call of a stdlib network wrapper, if anything.
pub open spec fn wrapper_call_violation(capabilities: CapabilityConfig, env: Seq<Binding>, function_name: Seq<char>, signature: FunctionSig, args: Seq<Expr>) -> Option<Seq<char>> {
    let name = if has_prefix(signature.source_path@, "<stdlib>/"@) { signature.source_name@ } else { function_name };
    let group = wrapper_group(signature.source_path@, signature.source_name@);
    if group == 1 {
        host_violation(capabilities, name, args[0], false)
    } else if group == 2 {
        match host_violation(capabilities, name, args[0], false) {
            Some(m) => Some(m),
            None => port_violation(capabilities, name, args[1], loopback_listener_port(args[1], env) || capabilities.net_ports.len() == 0),
        }
    } else if group == 3 {
        socket_violation(capabilities, name, args[0], net_unrestricted(capabilities))
    } else if group == 4 {
        socket_violation(capabilities, name, args[2], net_unrestricted(capabilities))
    } else if group == 5 {
        http_get_violation(capabilities, name, args[0], false)
    } else if group == 6 {
        socket_violation(capabilities, name, args[0], false)
    } else {
        None
    }
}

/// Checks a call of a stdlib network wrapper against the net allowlists.
pub fn validate_stdlib_network_wrapper_call_hir(_ctx: &LowerContext, capabilities: &CapabilityConfig, env: &Vec<Binding>, function_name: &str, signature: &FunctionSig, args: &Vec<Expr>, line: usize, column: usize) -> (r: Result<(), Diagnostic>)
    requires
        args.len() >= wrapper_args_needed(wrapper_group(signature.source_path@, signature.source_name@)),
    ensures
        capability_outcome(r, wrapper_call_violation(*capabilities, env@, function_name@, *signature, args@), line, column),
{
    let diagnostic_name: &str = if strip_prefix(signature.source_path.as_str(), "<stdlib>/").is_some() {
        signature.source_name.as_str()
    } else {
        function_name
    };
    let group = group_of(signature.source_path.as_str(), signature.source_name.as_str());
    if group == 1 {
        validate_net_host_allowlist_hir(capabilities, diagnostic_name, &args[0], line, column, false)
    } else if group == 2 {
        validate_net_host_allowlist_hir(capabilities, diagnostic_name, &args[0], line, column, false)?;
        // A dynamic peer port is fine when ports are unrestricted (there is no allowlist
        // to check a literal against); a loopback listener port is also always allowed.
        let allow_dynamic = is_loopback_listener_port_expr(&args[1], env) || capabilities.net_ports.len() == 0;
        validate_net_port_allowlist_hir(capabilities, diagnostic_name, &args[1], line, column, allow_dynamic)
    } else if group == 3 {
        validate_net_socket_allowlist_hir(capabilities, diagnostic_name, &args[0], line, column, net_socket_allowlist_is_unrestricted(capabilities))
    } else if group == 4 {
        validate_net_socket_allowlist_hir(capabilities, diagnostic_name, &args[2], line, column, net_socket_allowlist_is_unrestricted(capabilities))
    } else if group == 5 {
        validate_http_get_net_allowlist_hir(capabilities, diagnostic_name, &args[0], line, column, false)
    } else if group == 6 {
        validate_net_socket_allowlist_hir(capabilities, diagnostic_name, &args[0], line, column, false)
    } else {
        Ok(())
    }
}

/// The string of an expression that is a string literal.
pub fn static_string_literal(expr: &Expr) -> (r: Option<&str>)
    ensures
        r is Some <==> string_literal(*expr) is Some,
        r is Some ==> r->0@ == string_literal(*expr)->0,
{
    match expr {
        Expr::Literal { value: LiteralValue::String(value), .. } => Some(value.as_str()),
        _ => None,
    }
}

/// A socket address on a loopback host with port 0 (an ephemeral port).
pub open spec fn loopback_ephemeral(value: Seq<char>) -> bool {
    match socket_addr_parts(value) {
        Some((host, port)) => port == 0 && (host == "127.0.0.1"@ || host == "localhost"@ || host == "::1"@),
        None => false,
    }
}

/// Whether a socket address binds an ephemeral port on a loopback host.
pub fn is_loopback_ephemeral_bind(value: &str) -> (r: bool)
    ensures
        r == loopback_ephemeral(value@),
{
    match split_socket_addr_literal(value) {
        Some((host, port)) => port == 0 && (str_eq(host, "127.0.0.1") || str_eq(host, "localhost") || str_eq(host, "::1")),
        None => false,
    }
}

/// The declared function that `name` calls comes from one of the stdlib files `path_a`,
/// `path_b` under the source name `source_name`.
pub open spec fn calls_stdlib(functions: Seq<FunctionSig>, name: Seq<char>, path_a: Seq<char>, path_b: Seq<char>, source_name: Seq<char>) -> bool {
    match signature_index(functions, name) {
        Some(i) => (functions[i].source_path@ == path_a || functions[i].source_path@ == path_b)
            && functions[i].source_name@ == source_name,
        None => false,
    }
}

/// `name` calls a function that opens a TCP listener.
pub open spec fn tcp_listener_call(name: Seq<char>, ctx: LowerContext) -> bool {
    name == "net_tcp_listen"@ || calls_stdlib(ctx.functions@, name, "<stdlib>/net_tcp.ax"@, "<stdlib>/async_net.ax"@, "listen"@)
}

/// `name` calls a function that reads a TCP listener's local port.
pub open spec fn tcp_listener_port_call(name: Seq<char>, ctx: LowerContext) -> bool {
    name == "net_tcp_listener_port"@ || calls_stdlib(ctx.functions@, name, "<stdlib>/net_tcp.ax"@, "<stdlib>/async_net.ax"@, "local_port"@)
}

fn calls_stdlib_function(functions: &Vec<FunctionSig>, name: &str, path_a: &str, path_b: &str, source_name: &str) -> (r: bool)
    ensures
        r == calls_stdlib(functions@, name@, path_a@, path_b@, source_name@),
{
    match find_signature(functions, name) {
        Some(i) => (str_eq(functions[i].source_path.as_str(), path_a) || str_eq(functions[i].source_path.as_str(), path_b))
            && str_eq(functions[i].source_name.as_str(), source_name),
        None => false,
    }
}

/// Whether `name` calls a function that opens a TCP listener.
pub fn is_tcp_listener_call_name(name: &str, ctx: &LowerContext) -> (r: bool)
    ensures
        r == tcp_listener_call(name@, *ctx),
{
    str_eq(name, "net_tcp_listen") || calls_stdlib_function(ctx.functions, name, "<stdlib>/net_tcp.ax", "<stdlib>/async_net.ax", "listen")
}

/// Whether `name` calls a function that reads a TCP listener's local port.
pub fn is_tcp_listener_port_call_name(name: &str, ctx: &LowerContext) -> (r: bool)
    ensures
        r == tcp_listener_port_call(name@, *ctx),
{
    str_eq(name, "net_tcp_listener_port") || calls_stdlib_function(ctx.functions, name, "<stdlib>/net_tcp.ax", "<stdlib>/async_net.ax", "local_port")
}

/// Where a network value comes from: a loopback listener on an ephemeral port, or the
/// port of a local that holds such a listener.
pub open spec fn net_origin_of(expr: Expr, env: Seq<Binding>, ctx: LowerContext) -> Option<NetBindingOrigin>
    decreases expr,
{
    match expr {
        Expr::Await { expr: inner, .. } => net_origin_of(*inner, env, ctx),
        Expr::Call { name, args, .. } => {
            if tcp_listener_call(name@, ctx) {
                if args.len() > 0 && string_literal(args[0]) is Some && loopback_ephemeral(string_literal(args[0])->0) {
                    Some(NetBindingOrigin::LoopbackTcpListener)
                } else {
                    None
                }
            } else if tcp_listener_port_call(name@, ctx) {
                if args.len() > 0 && args[0] is VarRef {
                    match binding_index(env, args[0]->VarRef_name@) {
                        Some(i) => if env[i].net_origin == Some(NetBindingOrigin::LoopbackTcpListener) {
                            Some(NetBindingOrigin::LoopbackTcpListenerPort)
                        } else {
                            None
                        },
                        None => None,
                    }
                } else {
                    None
                }
            } else {
                None
            }
        },
        _ => None,
    }
}

/// Determines where a network value bound by a `let` comes from.
pub fn net_binding_origin_from_expr(expr: &Expr, env: &Vec<Binding>, ctx: &LowerContext) -> (r: Option<NetBindingOrigin>)
    ensures
        r == net_origin_of(*expr, env@, *ctx),
    decreases expr,
{
    match expr {
        Expr::Await { expr: inner, .. } => net_binding_origin_from_expr(inner, env, ctx),
        Expr::Call { name, args, .. } => {
            if is_tcp_listener_call_name(name.as_str(), ctx) {
                if args.len() > 0 {
                    match static_string_literal(&args[0]) {
                        Some(v) => if is_loopback_ephemeral_bind(v) {
                            Some(NetBindingOrigin::LoopbackTcpListener)
                        } else {
                            None
                        },
                        None => None,
                    }
                } else {
                    None
                }
            } else if is_tcp_listener_port_call_name(name.as_str(), ctx) {
                if args.len() > 0 {
                    match &args[0] {
                        Expr::VarRef { name: listener_name, .. } => match find_binding(env, listener_name.as_str()) {
                            Some(i) => if env[i].net_origin == Some(NetBindingOrigin::LoopbackTcpListener) {
                                Some(NetBindingOrigin::LoopbackTcpListenerPort)
                            } else {
                                None
                            },
                            None => None,
                        },
                        _ => None,
                    }
                } else {
                    None
                }
            } else {
                None
            }
        },
        _ => None,
    }
}

/// The string an expression is statically known to hold: a string literal, or a
/// string-typed reference to a const whose initializer is a string literal.
pub open spec fn known_string(expr: Expr, ctx: LowerContext) -> Option<Seq<char>> {
    match expr {
        Expr::Literal { value: LiteralValue::String(v), .. } => Some(v@),
        Expr::VarRef { name, ty } => {
            if ty is String || ty is Str {
                match const_index(ctx.consts@, name@) {
                    Some(i) => {
                        let decl = ctx.consts@[i];
                        if (decl.ty is String || decl.ty is Str) && decl.expr is Literal && decl.expr->Literal_0 is String {
                            Some(decl.expr->Literal_0->String_0@)
                        } else {
                            None
                        }
                    },
                    None => None,
                }
            } else {
                None
            }
        },
        _ => None,
    }
}

/// Finds the string an expression is statically known to hold.
pub fn hir_known_string(expr: &Expr, ctx: &LowerContext) -> (r: Option<String>)
    ensures
        r is Some <==> known_string(*expr, *ctx) is Some,
        r is Some ==> r->0@ == known_string(*expr, *ctx)->0,
{
    match expr {
        Expr::Literal { value: LiteralValue::String(value), .. } => Some(value.clone()),
        Expr::VarRef { name, ty } => {
            if !matches!(ty, Type::String | Type::Str) {
                return None;
            }
            let i = find_const(ctx.consts, name.as_str())?;
            let decl = &ctx.consts[i];
            if !matches!(decl.ty, syntax::TypeName::String | syntax::TypeName::Str) {
                return None;
            }
            match &decl.expr {
                syntax::Expr::Literal(syntax::Literal::String(value)) => Some(value.clone()),
                _ => None,
            }
        },
        _ => None,
    }
}

/// Whether `list` holds `value` exactly.
pub fn contains_string(list: &Vec<String>, value: &str) -> (r: bool)
    ensures
        r == exists|i: int| 0 <= i < list@.len() && #[trigger] list@[i]@ == value@,
{
    let mut i: usize = 0;
    while i < list.len()
        invariant
            i <= list.len(),
            forall|j: int| 0 <= j < i ==> #[trigger] list@[j]@ != value@,
        decreases list.len() - i,
    {
        if str_eq(list[i].as_str(), value) {
            return true;
        }
        i = i + 1;
    }
    false
}

/// What the process allowlist finds wrong with a `process_status` command, if anything.
pub open spec fn process_violation(capabilities: CapabilityConfig, ctx: LowerContext, command: Expr, allow_dynamic_command: bool) -> Option<Seq<char>> {
    let known = known_string(command, ctx);
    match capabilities.process_commands {
        crate::manifest::ProcessCommandPolicy::Unrestricted => {
            if allow_dynamic_command || known is Some {
                None
            } else {
                Some("call to \"process_status\" requires a string literal when [capabilities].process is unrestricted"@)
            }
        },
        crate::manifest::ProcessCommandPolicy::Allowlist(list) => {
            if list.commands.len() == 0 {
                Some("internal error: process command allowlist must not be empty"@)
            } else {
                match known {
                    Some(v) => if exists|i: int| 0 <= i < list.commands@.len() && #[trigger] list.commands@[i]@ == v {
                        None
                    } else {
                        Some("call to \"process_status\" requires [capabilities].process to include "@ + debug_quoted(v))
                    },
                    None => Some("call to \"process_status\" requires a string literal listed in [capabilities].process"@),
                }
            }
        },
    }
}

/// Checks the command of a `process_status` call against `[capabilities].process`.
pub fn validate_process_command_allowlist_hir(capabilities: &CapabilityConfig, ctx: &LowerContext, command: &Expr, line: usize, column: usize, allow_dynamic_command: bool) -> (r: Result<(), Diagnostic>)
    ensures
        capability_outcome(r, process_violation(*capabilities, *ctx, *command, allow_dynamic_command), line, column),
{
    let command_value = hir_known_string(command, ctx);
    let allowed_commands = match capabilities.process_commands.allowed_commands() {
        None => {
            if allow_dynamic_command {
                return Ok(());
            }
            return if command_value.is_some() {
                Ok(())
            } else {
                Err(capability_diagnostic(String::from_str("call to \"process_status\" requires a string literal when [capabilities].process is unrestricted"), line, column))
            };
        },
        Some(list) => list,
    };
    if allowed_commands.len() == 0 {
        return Err(capability_diagnostic(String::from_str("internal error: process command allowlist must not be empty"), line, column));
    }
    match command_value {
        Some(value) => {
            if contains_string(allowed_commands, value.as_str()) {
                Ok(())
            } else {
                let m = concat(String::from_str("call to \"process_status\" requires [capabilities].process to include "), quote(value.as_str()).as_str());
                Err(capability_diagnostic(m, line, column))
            }
        },
        None => Err(capability_diagnostic(String::from_str("call to \"process_status\" requires a string literal listed in [capabilities].process"), line, column)),
    }
}

} // verus!
