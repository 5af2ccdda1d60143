//! Built-in and plugin detection rules: each attack type has a list of
//! patterns that are combined, case-insensitively, into one regular
//! expression and matched against the request text.
use vstd::prelude::*;
use crate::plugins::{PluginRegistry, Selection, lists_selected, rule_of, rules_view};
use crate::regex_ops::{regex_matches, regex_is_match};
use crate::text::{contains_text, chars_of, string_from_chars, append_chars, join_with, join_chars, views, lowercase, to_lowercase};

verus! {

/// Category of a rule of the rule catalogue.
#[derive(Debug, Clone, Copy, PartialEq, Eq, Structural)]
pub enum RuleCategory {
    Xss,
    SqlInjection,
    Rce,
    Lfi,
    Rfi,
    PathTraversal,
    Ssti,
    Xxe,
    CommandInjection,
    Scanner,
    Bot,
    HttpSmuggling,
    SessionFixation,
    Csrf,
    ApiAbuse,
    PhpAttack,
    JavaAttack,
    NodejsAttack,
    WordpressAttack,
    Deserialization,
    CveExploit,
    BotSignature,
    ProtocolValidation,
    MethodEnforcement,
    RequestAnomaly,
    Custom,
}

/// The snake-case name of a category.
pub open spec fn category_name(c: RuleCategory) -> Seq<char> {
    match c {
        RuleCategory::Xss => "xss"@,
        RuleCategory::SqlInjection => "sql_injection"@,
        RuleCategory::Rce => "rce"@,
        RuleCategory::Lfi => "lfi"@,
        RuleCategory::Rfi => "rfi"@,
        RuleCategory::PathTraversal => "path_traversal"@,
        RuleCategory::Ssti => "ssti"@,
        RuleCategory::Xxe => "xxe"@,
        RuleCategory::CommandInjection => "command_injection"@,
        RuleCategory::Scanner => "scanner"@,
        RuleCategory::Bot => "bot"@,
        RuleCategory::HttpSmuggling => "http_smuggling"@,
        RuleCategory::SessionFixation => "session_fixation"@,
        RuleCategory::Csrf => "csrf"@,
        RuleCategory::ApiAbuse => "api_abuse"@,
        RuleCategory::PhpAttack => "php_attack"@,
        RuleCategory::JavaAttack => "java_attack"@,
        RuleCategory::NodejsAttack => "nodejs_attack"@,
        RuleCategory::WordpressAttack => "wordpress_attack"@,
        RuleCategory::Deserialization => "deserialization"@,
        RuleCategory::CveExploit => "cve_exploit"@,
        RuleCategory::BotSignature => "bot_signature"@,
        RuleCategory::ProtocolValidation => "protocol_validation"@,
        RuleCategory::MethodEnforcement => "method_enforcement"@,
        RuleCategory::RequestAnomaly => "request_anomaly"@,
        RuleCategory::Custom => "custom"@,
    }
}

/// Different categories have different names, so a name gives back the one
/// category it was made from.
pub proof fn law_category_names_distinct(a: RuleCategory, b: RuleCategory)
    requires
        category_name(a) == category_name(b),
    ensures
        a == b,
{
    reveal_strlit("xss");
    reveal_strlit("sql_injection");
    reveal_strlit("rce");
    reveal_strlit("lfi");
    reveal_strlit("rfi");
    reveal_strlit("path_traversal");
    reveal_strlit("ssti");
    reveal_strlit("xxe");
    reveal_strlit("command_injection");
    reveal_strlit("scanner");
    reveal_strlit("bot");
    reveal_strlit("http_smuggling");
    reveal_strlit("session_fixation");
    reveal_strlit("csrf");
    reveal_strlit("api_abuse");
    reveal_strlit("php_attack");
    reveal_strlit("java_attack");
    reveal_strlit("nodejs_attack");
    reveal_strlit("wordpress_attack");
    reveal_strlit("deserialization");
    reveal_strlit("cve_exploit");
    reveal_strlit("bot_signature");
    reveal_strlit("protocol_validation");
    reveal_strlit("method_enforcement");
    reveal_strlit("request_anomaly");
    reveal_strlit("custom");
    let (na, nb) = (category_name(a), category_name(b));
    assert(na.len() == nb.len() && na[0] == nb[0] && na[1] == nb[1]);
}

impl RuleCategory {
    /// The snake-case name of the category.
    pub fn as_str(&self) -> (s: &'static str)
        ensures
            s@ == category_name(*self),
    {
        match self {
            RuleCategory::Xss => "xss",
            RuleCategory::SqlInjection => "sql_injection",
            RuleCategory::Rce => "rce",
            RuleCategory::Lfi => "lfi",
            RuleCategory::Rfi => "rfi",
            RuleCategory::PathTraversal => "path_traversal",
            RuleCategory::Ssti => "ssti",
            RuleCategory::Xxe => "xxe",
            RuleCategory::CommandInjection => "command_injection",
            RuleCategory::Scanner => "scanner",
            RuleCategory::Bot => "bot",
            RuleCategory::HttpSmuggling => "http_smuggling",
            RuleCategory::SessionFixation => "session_fixation",
            RuleCategory::Csrf => "csrf",
            RuleCategory::ApiAbuse => "api_abuse",
            RuleCategory::PhpAttack => "php_attack",
            RuleCategory::JavaAttack => "java_attack",
            RuleCategory::NodejsAttack => "nodejs_attack",
            RuleCategory::WordpressAttack => "wordpress_attack",
            RuleCategory::Deserialization => "deserialization",
            RuleCategory::CveExploit => "cve_exploit",
            RuleCategory::BotSignature => "bot_signature",
            RuleCategory::ProtocolValidation => "protocol_validation",
            RuleCategory::MethodEnforcement => "method_enforcement",
            RuleCategory::RequestAnomaly => "request_anomaly",
            RuleCategory::Custom => "custom",
        }
    }
}

/// One rule of the rule catalogue.
#[derive(Debug, Clone)]
pub struct Rule {
    pub id: u64,
    pub category: RuleCategory,
    pub paranoia_level: u8,
    pub severity: String,
    pub description: String,
    pub pattern: String,
    pub mitre_id: Option<String>,
    pub enabled: bool,
}

/// Rules are enabled unless stated otherwise.
pub fn default_enabled() -> (b: bool)
    ensures
        b,
{
    true
}

/// A rule that matched a request.
#[derive(Debug, Clone)]
pub struct RuleMatch {
    pub rule: Rule,
}

/// A request as the rule engine sees it. Header, query and cookie pairs are
/// kept in the order in which they were read.
pub struct WafRequest {
    pub url: String,
    pub method: String,
    pub headers: Vec<(String, String)>,
    pub query_params: Vec<(String, String)>,
    pub body: String,
    pub cookies: Vec<(String, String)>,
}

/// `key=value`, each side lower-cased on its own.
pub open spec fn pair_text(p: (String, String)) -> Seq<char> {
    lowercase(p.0@) + seq!['='] + lowercase(p.1@)
}

/// The pieces of the detection text of a request.
pub open spec fn detection_parts(r: WafRequest) -> Seq<Seq<char>> {
    seq![lowercase(r.url@), lowercase(r.method@)]
        + r.headers@.map_values(|p: (String, String)| pair_text(p))
        + r.query_params@.map_values(|p: (String, String)| pair_text(p))
        + seq![lowercase(r.body@)]
        + r.cookies@.map_values(|p: (String, String)| pair_text(p))
}

fn push_pairs(parts: &mut Vec<Vec<char>>, pairs: &Vec<(String, String)>)
    ensures
        views(final(parts)@) == views(old(parts)@) + pairs@.map_values(|p: (String, String)| pair_text(p)),
{
    let ghost start = views(parts@);
    let mut i: usize = 0;
    while i < pairs.len()
        invariant
            i <= pairs@.len(),
            views(parts@) == start + pairs@.take(i as int).map_values(|p: (String, String)| pair_text(p)),
        decreases pairs.len() - i,
    {
        let mut t = chars_of(to_lowercase(pairs[i].0.as_str()).as_str());
        t.push('=');
        append_chars(&mut t, chars_of(to_lowercase(pairs[i].1.as_str()).as_str()).as_slice());
        assert(t@ =~= pair_text(pairs@[i as int]));
        let ghost before = parts@;
        parts.push(t);
        assert(views(parts@) =~= views(before).push(t@));
        assert(pairs@.take(i + 1).map_values(|p: (String, String)| pair_text(p))
            =~= pairs@.take(i as int).map_values(|p: (String, String)| pair_text(p)).push(t@));
        i = i + 1;
    }
    assert(pairs@.take(pairs@.len() as int) =~= pairs@);
}

fn push_lower(parts: &mut Vec<Vec<char>>, s: &str)
    ensures
        views(final(parts)@) == views(old(parts)@).push(lowercase(s@)),
{
    let t = chars_of(to_lowercase(s).as_str());
    let ghost before = parts@;
    parts.push(t);
    assert(views(parts@) =~= views(before).push(t@));
}

impl WafRequest {
    /// The text the rules are matched against: URL, method, `key=value` for
    /// each header and query parameter, body, `key=value` for each cookie,
    /// all lower-cased and separated by single spaces.
    pub fn to_detection_string(&self) -> (s: String)
        ensures
            s@ == join_with(detection_parts(*self), " "@),
    {
        let mut parts: Vec<Vec<char>> = Vec::new();
        push_lower(&mut parts, self.url.as_str());
        push_lower(&mut parts, self.method.as_str());
        push_pairs(&mut parts, &self.headers);
        push_pairs(&mut parts, &self.query_params);
        push_lower(&mut parts, self.body.as_str());
        push_pairs(&mut parts, &self.cookies);
        assert(views(parts@) =~= detection_parts(*self));
        let sep = chars_of(" ");
        let out = join_chars(&parts, sep.as_slice());
        string_from_chars(out.as_slice())
    }
}

/// An attack type with its patterns.
pub struct RuleSet {
    pub attack_type: &'static str,
    pub patterns: Vec<&'static str>,
}

/// The built-in `xss` patterns.
pub open spec fn xss_patterns_spec() -> Seq<Seq<char>> {
    seq![
        r#"<script[\s\S]*?>"#@,
        r#"</script>"#@,
        r#"javascript\s*:"#@,
        r#"vbscript\s*:"#@,
        r#"on(load|error|click|mouseover|focus|blur|change|submit|keyup|keydown|input|mousewheel|contextmenu|drag|drop)\s*="#@,
        r#"<iframe[\s\S]*?>"#@,
        r#"<img[^>]+src\s*=\s*['\"]?\s*javascript:"#@,
        r#"<svg[\s\S]*?on\w+\s*="#@,
        r#"<object[\s\S]*?>"#@,
        r#"<embed[\s\S]*?>"#@,
        r#"<link[^>]+href[^>]+stylesheet"#@,
        r#"expression\s*\("#@,
        r#"(alert|confirm|prompt|eval|atob|execCommand|setTimeout|setInterval)\s*[(`]"#@,
        r#"document\s*\.\s*(cookie|write|location|domain)"#@,
        r#"window\s*\.\s*(location|name|open|eval)"#@,
        r#"String\.fromCharCode"#@,
        r#"&#x[0-9a-f]+;"#@,
        r#"&#\d+;"#@,
        r#"%3cscript"#@,
        r#"%3e"#@,
        r#"data\s*:\s*text/html"#@,
        r#"base64\s*,"#@,
        r#"location\s*=\s*['\"]javascript:"#@,
    ]
}

fn xss_patterns() -> (v: Vec<&'static str>)
    ensures
        v@.map_values(|p: &str| p@) == xss_patterns_spec(),
{
    let mut p: Vec<&'static str> = Vec::new();
    p.push(r#"<script[\s\S]*?>"#);
    p.push(r#"</script>"#);
    p.push(r#"javascript\s*:"#);
    p.push(r#"vbscript\s*:"#);
    p.push(r#"on(load|error|click|mouseover|focus|blur|change|submit|keyup|keydown|input|mousewheel|contextmenu|drag|drop)\s*="#);
    p.push(r#"<iframe[\s\S]*?>"#);
    p.push(r#"<img[^>]+src\s*=\s*['\"]?\s*javascript:"#);
    p.push(r#"<svg[\s\S]*?on\w+\s*="#);
    p.push(r#"<object[\s\S]*?>"#);
    p.push(r#"<embed[\s\S]*?>"#);
    p.push(r#"<link[^>]+href[^>]+stylesheet"#);
    p.push(r#"expression\s*\("#);
    p.push(r#"(alert|confirm|prompt|eval|atob|execCommand|setTimeout|setInterval)\s*[(`]"#);
    p.push(r#"document\s*\.\s*(cookie|write|location|domain)"#);
    p.push(r#"window\s*\.\s*(location|name|open|eval)"#);
    p.push(r#"String\.fromCharCode"#);
    p.push(r#"&#x[0-9a-f]+;"#);
    p.push(r#"&#\d+;"#);
    p.push(r#"%3cscript"#);
    p.push(r#"%3e"#);
    p.push(r#"data\s*:\s*text/html"#);
    p.push(r#"base64\s*,"#);
    p.push(r#"location\s*=\s*['\"]javascript:"#);
    assert(p@.map_values(|p: &str| p@) =~= xss_patterns_spec());
    p
}
/// The built-in `sql_injection` patterns.
pub open spec fn sql_injection_patterns_spec() -> Seq<Seq<char>> {
    seq![
        r#"'\s*(or|and)\s*'?\d"#@,
        r#"'\s*(or|and)\s+\d+\s*=\s*\d+"#@,
        r#"union\s+(all\s+)?select"#@,
        r#"select\s+.+?\s+from\s+"#@,
        r#"insert\s+into\s+"#@,
        r#"update\s+\w+\s+set\s+"#@,
        r#"delete\s+from\s+"#@,
        r#"drop\s+(table|database|index|view)"#@,
        r#"alter\s+(table|database)"#@,
        r#"create\s+(table|database|index|view)"#@,
        r#"exec(\s|\+)+(s|x)p\w+"#@,
        r#"xp_cmdshell"#@,
        r#"information_schema"#@,
        r#"sys\.(tables|columns|objects)"#@,
        r#"sleep\s*\(\s*\d+\s*\)"#@,
        r#"benchmark\s*\("#@,
        r#"waitfor\s+delay"#@,
        r#"load_file\s*\("#@,
        r#"into\s+(out|dump)file"#@,
        r#"--\s"#@,
        r#";\s*--"#@,
        r#"/\*.*?\*/"#@,
        r#"(#|--)\s*$"#@,
        r#"0x[0-9a-f]{4,}"#@,
        r#"char\s*\(\s*\d+"#@,
        r#"concat\s*\("#@,
        r#"group_concat\s*\("#@,
        r#"(extractvalue|updatexml|floor|geometrycollection|multipoint|polygon)\s*\("#@,
        r#"procedure\s+analyse\s*\("#@,
        r#"select\s+pg_sleep"#@,
        r#"dbms_pipe\.receive_message"#@,
    ]
}

fn sql_injection_patterns() -> (v: Vec<&'static str>)
    ensures
        v@.map_values(|p: &str| p@) == sql_injection_patterns_spec(),
{
    let mut p: Vec<&'static str> = Vec::new();
    p.push(r#"'\s*(or|and)\s*'?\d"#);
    p.push(r#"'\s*(or|and)\s+\d+\s*=\s*\d+"#);
    p.push(r#"union\s+(all\s+)?select"#);
    p.push(r#"select\s+.+?\s+from\s+"#);
    p.push(r#"insert\s+into\s+"#);
    p.push(r#"update\s+\w+\s+set\s+"#);
    p.push(r#"delete\s+from\s+"#);
    p.push(r#"drop\s+(table|database|index|view)"#);
    p.push(r#"alter\s+(table|database)"#);
    p.push(r#"create\s+(table|database|index|view)"#);
    p.push(r#"exec(\s|\+)+(s|x)p\w+"#);
    p.push(r#"xp_cmdshell"#);
    p.push(r#"information_schema"#);
    p.push(r#"sys\.(tables|columns|objects)"#);
    p.push(r#"sleep\s*\(\s*\d+\s*\)"#);
    p.push(r#"benchmark\s*\("#);
    p.push(r#"waitfor\s+delay"#);
    p.push(r#"load_file\s*\("#);
    p.push(r#"into\s+(out|dump)file"#);
    p.push(r#"--\s"#);
    p.push(r#";\s*--"#);
    p.push(r#"/\*.*?\*/"#);
    p.push(r#"(#|--)\s*$"#);
    p.push(r#"0x[0-9a-f]{4,}"#);
    p.push(r#"char\s*\(\s*\d+"#);
    p.push(r#"concat\s*\("#);
    p.push(r#"group_concat\s*\("#);
    p.push(r#"(extractvalue|updatexml|floor|geometrycollection|multipoint|polygon)\s*\("#);
    p.push(r#"procedure\s+analyse\s*\("#);
    p.push(r#"select\s+pg_sleep"#);
    p.push(r#"dbms_pipe\.receive_message"#);
    assert(p@.map_values(|p: &str| p@) =~= sql_injection_patterns_spec());
    p
}
/// The built-in `path_traversal` patterns.
pub open spec fn path_traversal_patterns_spec() -> Seq<Seq<char>> {
    seq![
        r#"\.\./"#@,
        r#"\.\.\\\"#@,
        r#"%2e%2e%2f"#@,
        r#"%2e%2e/"#@,
        r#"\.\.%2f"#@,
        r#"%252e%252e"#@,
        r#"etc/passwd"#@,
        r#"etc/shadow"#@,
        r#"etc/hosts"#@,
        r#"proc/self/environ"#@,
        r#"proc/self/cmdline"#@,
        r#"windows/system32"#@,
        r#"win\.ini"#@,
        r#"boot\.ini"#@,
        r#"/var/log/"#@,
        r#"\.htaccess"#@,
        r#"\.env"#@,
        r#"wp-config\.php"#@,
        r#"web\.config"#@,
        r#"\.git/config"#@,
        r#"\.DS_Store"#@,
        r#"WEB-INF/"#@,
        r#"META-INF/"#@,
        r#"appsettings\.json"#@,
    ]
}

fn path_traversal_patterns() -> (v: Vec<&'static str>)
    ensures
        v@.map_values(|p: &str| p@) == path_traversal_patterns_spec(),
{
    let mut p: Vec<&'static str> = Vec::new();
    p.push(r#"\.\./"#);
    p.push(r#"\.\.\\\"#);
    p.push(r#"%2e%2e%2f"#);
    p.push(r#"%2e%2e/"#);
    p.push(r#"\.\.%2f"#);
    p.push(r#"%252e%252e"#);
    p.push(r#"etc/passwd"#);
    p.push(r#"etc/shadow"#);
    p.push(r#"etc/hosts"#);
    p.push(r#"proc/self/environ"#);
    p.push(r#"proc/self/cmdline"#);
    p.push(r#"windows/system32"#);
    p.push(r#"win\.ini"#);
    p.push(r#"boot\.ini"#);
    p.push(r#"/var/log/"#);
    p.push(r#"\.htaccess"#);
    p.push(r#"\.env"#);
    p.push(r#"wp-config\.php"#);
    p.push(r#"web\.config"#);
    p.push(r#"\.git/config"#);
    p.push(r#"\.DS_Store"#);
    p.push(r#"WEB-INF/"#);
    p.push(r#"META-INF/"#);
    p.push(r#"appsettings\.json"#);
    assert(p@.map_values(|p: &str| p@) =~= path_traversal_patterns_spec());
    p
}
/// The built-in `rce` patterns.
pub open spec fn rce_patterns_spec() -> Seq<Seq<char>> {
    seq![
        r#"(?:^|[;\|&])\s*(ls|dir|pwd|whoami|id|uname|cat|wget|curl|bash|sh|python|perl|ruby|php|node|powershell|cmd)\s+"#@,
        r#"system\s*\("#@,
        r#"passthru\s*\("#@,
        r#"shell_exec\s*\("#@,
        r#"popen\s*\("#@,
        r#"proc_open\s*\("#@,
        r#"exec\s*\("#@,
        r#"assert\s*\("#@,
        r#"preg_replace\s*\(.+/e"#@,
        r#"call_user_func\s*\("#@,
        r#"base64_decode\s*\("#@,
        r#"file_get_contents\s*\("#@,
        r#"include\s*\("#@,
        r#"require\s*\("#@,
        r#"phpinfo\s*\("#@,
        r#"nc\s+-[el]"#@,
        r#"/bin/(bash|sh|zsh|ksh)"#@,
        r#"python\s+-c\s+['\"]import"#@,
        r#"curl\s+.+\|\s*(bash|sh)"#@,
        r#"java\.lang\.Runtime"#@,
        r#"ProcessBuilder"#@,
        r#"getRuntime\(\)\.exec"#@,
        r#"\$\(\w+\)"#@,
        r#"`\w+`"#@,
        r#"\$\{jndi:(?:ldap|rmi|dns|nis|iiop|corba|nds|http):.*?\}"#@,
        r#"class\.module\.classLoader\.resources\.context\.parent\.pipeline\.first\.pattern"#@,
    ]
}

fn rce_patterns() -> (v: Vec<&'static str>)
    ensures
        v@.map_values(|p: &str| p@) == rce_patterns_spec(),
{
    let mut p: Vec<&'static str> = Vec::new();
    p.push(r#"(?:^|[;\|&])\s*(ls|dir|pwd|whoami|id|uname|cat|wget|curl|bash|sh|python|perl|ruby|php|node|powershell|cmd)\s+"#);
    p.push(r#"system\s*\("#);
    p.push(r#"passthru\s*\("#);
    p.push(r#"shell_exec\s*\("#);
    p.push(r#"popen\s*\("#);
    p.push(r#"proc_open\s*\("#);
    p.push(r#"exec\s*\("#);
    p.push(r#"assert\s*\("#);
    p.push(r#"preg_replace\s*\(.+/e"#);
    p.push(r#"call_user_func\s*\("#);
    p.push(r#"base64_decode\s*\("#);
    p.push(r#"file_get_contents\s*\("#);
    p.push(r#"include\s*\("#);
    p.push(r#"require\s*\("#);
    p.push(r#"phpinfo\s*\("#);
    p.push(r#"nc\s+-[el]"#);
    p.push(r#"/bin/(bash|sh|zsh|ksh)"#);
    p.push(r#"python\s+-c\s+['\"]import"#);
    p.push(r#"curl\s+.+\|\s*(bash|sh)"#);
    p.push(r#"java\.lang\.Runtime"#);
    p.push(r#"ProcessBuilder"#);
    p.push(r#"getRuntime\(\)\.exec"#);
    p.push(r#"\$\(\w+\)"#);
    p.push(r#"`\w+`"#);
    p.push(r#"\$\{jndi:(?:ldap|rmi|dns|nis|iiop|corba|nds|http):.*?\}"#);
    p.push(r#"class\.module\.classLoader\.resources\.context\.parent\.pipeline\.first\.pattern"#);
    assert(p@.map_values(|p: &str| p@) =~= rce_patterns_spec());
    p
}
/// The built-in `ssrf` patterns.
pub open spec fn ssrf_patterns_spec() -> Seq<Seq<char>> {
    seq![
        r#"http://169\.254\.169\.254"#@,
        r#"http://metadata\.google\.internal"#@,
        r#"http://192\.168\."#@,
        r#"http://10\."#@,
        r#"http://172\.(1[6-9]|2\d|3[01])\."#@,
        r#"http://0\.0\.0\.0"#@,
        r#"file://"#@,
        r#"dict://"#@,
        r#"gopher://"#@,
        r#"ftp://"#@,
        r#"sftp://"#@,
        r#"ldap://"#@,
        r#"tftp://"#@,
        r#"jar://"#@,
        r#"netdoc://"#@,
        r#"0x7f000001"#@,
        r#"2130706433"#@,
    ]
}

fn ssrf_patterns() -> (v: Vec<&'static str>)
    ensures
        v@.map_values(|p: &str| p@) == ssrf_patterns_spec(),
{
    let mut p: Vec<&'static str> = Vec::new();
    p.push(r#"http://169\.254\.169\.254"#);
    p.push(r#"http://metadata\.google\.internal"#);
    p.push(r#"http://192\.168\."#);
    p.push(r#"http://10\."#);
    p.push(r#"http://172\.(1[6-9]|2\d|3[01])\."#);
    p.push(r#"http://0\.0\.0\.0"#);
    p.push(r#"file://"#);
    p.push(r#"dict://"#);
    p.push(r#"gopher://"#);
    p.push(r#"ftp://"#);
    p.push(r#"sftp://"#);
    p.push(r#"ldap://"#);
    p.push(r#"tftp://"#);
    p.push(r#"jar://"#);
    p.push(r#"netdoc://"#);
    p.push(r#"0x7f000001"#);
    p.push(r#"2130706433"#);
    assert(p@.map_values(|p: &str| p@) =~= ssrf_patterns_spec());
    p
}
/// The built-in `xxe` patterns.
pub open spec fn xxe_patterns_spec() -> Seq<Seq<char>> {
    seq![
        r#"<!ENTITY"#@,
        r#"<!DOCTYPE[^>]+SYSTEM"#@,
        r#"<!DOCTYPE[^>]+PUBLIC"#@,
        r#"SYSTEM\s+['\"]file://"#@,
        r#"SYSTEM\s+['\"]http://"#@,
        r#"%[a-z]+;"#@,
        r#"<!\[CDATA\["#@,
    ]
}

fn xxe_patterns() -> (v: Vec<&'static str>)
    ensures
        v@.map_values(|p: &str| p@) == xxe_patterns_spec(),
{
    let mut p: Vec<&'static str> = Vec::new();
    p.push(r#"<!ENTITY"#);
    p.push(r#"<!DOCTYPE[^>]+SYSTEM"#);
    p.push(r#"<!DOCTYPE[^>]+PUBLIC"#);
    p.push(r#"SYSTEM\s+['\"]file://"#);
    p.push(r#"SYSTEM\s+['\"]http://"#);
    p.push(r#"%[a-z]+;"#);
    p.push(r#"<!\[CDATA\["#);
    assert(p@.map_values(|p: &str| p@) =~= xxe_patterns_spec());
    p
}
/// The built-in `ssti` patterns.
pub open spec fn ssti_patterns_spec() -> Seq<Seq<char>> {
    seq![
        r#"\{\{.*?\}\}"#@,
        r#"\{%.*?%\}"#@,
        r#"\$\{.*?\}"#@,
        r#"#\{.*?\}"#@,
        r#"\{\{7\*7\}\}"#@,
        r#"__class__"#@,
        r#"__mro__"#@,
        r#"__subclasses__"#@,
        r#"__import__"#@,
        r#"__builtins__"#@,
        r#"mako\.runtime"#@,
        r#"jinja2\.environment"#@,
    ]
}

fn ssti_patterns() -> (v: Vec<&'static str>)
    ensures
        v@.map_values(|p: &str| p@) == ssti_patterns_spec(),
{
    let mut p: Vec<&'static str> = Vec::new();
    p.push(r#"\{\{.*?\}\}"#);
    p.push(r#"\{%.*?%\}"#);
    p.push(r#"\$\{.*?\}"#);
    p.push(r#"#\{.*?\}"#);
    p.push(r#"\{\{7\*7\}\}"#);
    p.push(r#"__class__"#);
    p.push(r#"__mro__"#);
    p.push(r#"__subclasses__"#);
    p.push(r#"__import__"#);
    p.push(r#"__builtins__"#);
    p.push(r#"mako\.runtime"#);
    p.push(r#"jinja2\.environment"#);
    assert(p@.map_values(|p: &str| p@) =~= ssti_patterns_spec());
    p
}
/// The built-in `file_upload` patterns.
pub open spec fn file_upload_patterns_spec() -> Seq<Seq<char>> {
    seq![
        r#"\.(php|php3|php4|php5|phtml|phar|jsp|jspx|jspf|asp|aspx|asa|cer|cdx|exe|sh|pl|py|cgi)\s*$"#@,
        r#"Content-Type.*application/x-php"#@,
        r#"GIF89a.*<\?php"#@,
        r#"<\?php"#@,
        r#"<%@\s*page"#@,
        r#"<%\s*Runtime"#@,
    ]
}

fn file_upload_patterns() -> (v: Vec<&'static str>)
    ensures
        v@.map_values(|p: &str| p@) == file_upload_patterns_spec(),
{
    let mut p: Vec<&'static str> = Vec::new();
    p.push(r#"\.(php|php3|php4|php5|phtml|phar|jsp|jspx|jspf|asp|aspx|asa|cer|cdx|exe|sh|pl|py|cgi)\s*$"#);
    p.push(r#"Content-Type.*application/x-php"#);
    p.push(r#"GIF89a.*<\?php"#);
    p.push(r#"<\?php"#);
    p.push(r#"<%@\s*page"#);
    p.push(r#"<%\s*Runtime"#);
    assert(p@.map_values(|p: &str| p@) =~= file_upload_patterns_spec());
    p
}
/// The built-in `scanner` patterns.
pub open spec fn scanner_patterns_spec() -> Seq<Seq<char>> {
    seq![
        r#"sqlmap"#@,
        r#"nmap"#@,
        r#"nikto"#@,
        r#"burpsuite"#@,
        r#"acunetix"#@,
        r#"nessus"#@,
        r#"openvas"#@,
        r#"masscan"#@,
        r#"zgrab"#@,
        r#"nuclei"#@,
        r#"dirsearch"#@,
        r#"gobuster"#@,
        r#"hydra"#@,
        r#"wpscan"#@,
        r#"skipfish"#@,
        r#"python-requests/"#@,
        r#"go-http-client"#@,
        r#"postmanruntime"#@,
    ]
}

fn scanner_patterns() -> (v: Vec<&'static str>)
    ensures
        v@.map_values(|p: &str| p@) == scanner_patterns_spec(),
{
    let mut p: Vec<&'static str> = Vec::new();
    p.push(r#"sqlmap"#);
    p.push(r#"nmap"#);
    p.push(r#"nikto"#);
    p.push(r#"burpsuite"#);
    p.push(r#"acunetix"#);
    p.push(r#"nessus"#);
    p.push(r#"openvas"#);
    p.push(r#"masscan"#);
    p.push(r#"zgrab"#);
    p.push(r#"nuclei"#);
    p.push(r#"dirsearch"#);
    p.push(r#"gobuster"#);
    p.push(r#"hydra"#);
    p.push(r#"wpscan"#);
    p.push(r#"skipfish"#);
    p.push(r#"python-requests/"#);
    p.push(r#"go-http-client"#);
    p.push(r#"postmanruntime"#);
    assert(p@.map_values(|p: &str| p@) =~= scanner_patterns_spec());
    p
}
/// The built-in rule sets: attack type and patterns, in catalogue order.
pub open spec fn builtin_rules_spec() -> Seq<(Seq<char>, Seq<Seq<char>>)> {
    seq![
        ("xss"@, xss_patterns_spec()),
        ("sql_injection"@, sql_injection_patterns_spec()),
        ("path_traversal"@, path_traversal_patterns_spec()),
        ("rce"@, rce_patterns_spec()),
        ("ssrf"@, ssrf_patterns_spec()),
        ("xxe"@, xxe_patterns_spec()),
        ("ssti"@, ssti_patterns_spec()),
        ("file_upload"@, file_upload_patterns_spec()),
        ("scanner"@, scanner_patterns_spec()),
    ]
}

/// The view of rule sets as attack types and patterns.
pub open spec fn rule_sets_view(sets: Seq<RuleSet>) -> Seq<(Seq<char>, Seq<Seq<char>>)> {
    sets.map_values(|r: RuleSet| (r.attack_type@, r.patterns@.map_values(|p: &str| p@)))
}

/// The built-in rule sets.
pub fn builtin_rule_sets() -> (sets: Vec<RuleSet>)
    ensures
        rule_sets_view(sets@) == builtin_rules_spec(),
{
    let mut sets: Vec<RuleSet> = Vec::new();
    sets.push(RuleSet { attack_type: "xss", patterns: xss_patterns() });
    sets.push(RuleSet { attack_type: "sql_injection", patterns: sql_injection_patterns() });
    sets.push(RuleSet { attack_type: "path_traversal", patterns: path_traversal_patterns() });
    sets.push(RuleSet { attack_type: "rce", patterns: rce_patterns() });
    sets.push(RuleSet { attack_type: "ssrf", patterns: ssrf_patterns() });
    sets.push(RuleSet { attack_type: "xxe", patterns: xxe_patterns() });
    sets.push(RuleSet { attack_type: "ssti", patterns: ssti_patterns() });
    sets.push(RuleSet { attack_type: "file_upload", patterns: file_upload_patterns() });
    sets.push(RuleSet { attack_type: "scanner", patterns: scanner_patterns() });
    assert(rule_sets_view(sets@) =~= builtin_rules_spec());
    sets
}

/// The case-insensitive alternation of the patterns.
pub open spec fn combined_pattern(patterns: Seq<Seq<char>>) -> Seq<char> {
    "(?i)"@ + join_with(patterns, "|"@)
}

/// The attack types, in order, whose combined pattern compiles and matches `text`.
pub open spec fn matched_types(text: Seq<char>, sets: Seq<(Seq<char>, Seq<Seq<char>>)>) -> Seq<Seq<char>>
    decreases sets.len(),
{
    if sets.len() == 0 {
        Seq::empty()
    } else {
        let prev = matched_types(text, sets.drop_last());
        if regex_matches(combined_pattern(sets.last().1), text) == Some(true) {
            prev.push(sets.last().0)
        } else {
            prev
        }
    }
}

pub fn combine_patterns(patterns: &Vec<Vec<char>>) -> (s: String)
    ensures
        s@ == combined_pattern(views(patterns@)),
{
    let mut out = chars_of("(?i)");
    let sep = chars_of("|");
    let joined = join_chars(patterns, sep.as_slice());
    append_chars(&mut out, joined.as_slice());
    string_from_chars(out.as_slice())
}

fn pattern_chars(ps: &Vec<&'static str>) -> (v: Vec<Vec<char>>)
    ensures
        views(v@) == ps@.map_values(|p: &str| p@),
{
    let mut v: Vec<Vec<char>> = Vec::new();
    let mut i: usize = 0;
    while i < ps.len()
        invariant
            i <= ps@.len(),
            views(v@) == ps@.take(i as int).map_values(|p: &str| p@),
        decreases ps.len() - i,
    {
        let c = chars_of(ps[i]);
        let ghost before = v@;
        v.push(c);
        assert(views(v@) =~= views(before).push(c@));
        assert(ps@.take(i + 1).map_values(|p: &str| p@) =~= ps@.take(i as int).map_values(|p: &str| p@).push(ps@[i as int]@));
        i = i + 1;
    }
    assert(ps@.take(ps@.len() as int) =~= ps@);
    v
}

/// Matches `text` against each rule set, in order; a set whose pattern does
/// not compile is skipped. Returns whether anything matched and the matched
/// attack types.
pub fn check_rules(text: &str, sets: &Vec<RuleSet>) -> (r: (bool, Vec<String>))
    ensures
        r.1@.map_values(|s: String| s@) == matched_types(text@, rule_sets_view(sets@)),
        r.0 == (r.1@.len() > 0),
{
    let mut matched: Vec<String> = Vec::new();
    let mut i: usize = 0;
    let ghost v = rule_sets_view(sets@);
    assert(v.take(0) =~= Seq::<(Seq<char>, Seq<Seq<char>>)>::empty());
    while i < sets.len()
        invariant
            i <= sets@.len(),
            v == rule_sets_view(sets@),
            matched@.map_values(|s: String| s@) == matched_types(text@, v.take(i as int)),
        decreases sets.len() - i,
    {
        let pats = pattern_chars(&sets[i].patterns);
        let pattern = combine_patterns(&pats);
        assert(v.take(i + 1).drop_last() =~= v.take(i as int));
        assert(v.take(i + 1).last() == v[i as int]);
        if regex_is_match(pattern.as_str(), text) == Some(true) {
            let ghost before = matched@;
            matched.push(String::from_str(sets[i].attack_type));
            assert(matched@.map_values(|s: String| s@) =~= before.map_values(|s: String| s@).push(v[i as int].0));
        }
        i = i + 1;
    }
    assert(v.take(v.len() as int) =~= v);
    let any = matched.len() > 0;
    (any, matched)
}

/// Whether a plugin rule matches: its case-insensitive alternation when it
/// compiles, otherwise the never-intended fallback pattern `$^`.
pub open spec fn plugin_rule_matches(patterns: Seq<Seq<char>>, text: Seq<char>) -> bool {
    match regex_matches(combined_pattern(patterns), text) {
        Some(b) => b,
        None => regex_matches("$^"@, text) == Some(true),
    }
}

/// The attack types of the plugin rules with patterns that match `text`.
pub open spec fn plugin_matched(text: Seq<char>, rules: Seq<(Seq<char>, Seq<Seq<char>>)>) -> Seq<Seq<char>>
    decreases rules.len(),
{
    if rules.len() == 0 {
        Seq::empty()
    } else {
        let prev = plugin_matched(text, rules.drop_last());
        let pats = rules.last().1;
        if pats.len() > 0 && plugin_rule_matches(pats, text) {
            prev.push(rules.last().0)
        } else {
            prev
        }
    }
}

pub fn pattern_strings(ps: &Vec<String>) -> (v: Vec<Vec<char>>)
    ensures
        views(v@) == ps@.map_values(|p: String| p@),
{
    let mut v: Vec<Vec<char>> = Vec::new();
    let mut i: usize = 0;
    while i < ps.len()
        invariant
            i <= ps@.len(),
            views(v@) == ps@.take(i as int).map_values(|p: String| p@),
        decreases ps.len() - i,
    {
        let c = chars_of(ps[i].as_str());
        let ghost before = v@;
        v.push(c);
        assert(views(v@) =~= views(before).push(c@));
        assert(ps@.take(i + 1).map_values(|p: String| p@) =~= ps@.take(i as int).map_values(|p: String| p@).push(ps@[i as int]@));
        i = i + 1;
    }
    assert(ps@.take(ps@.len() as int) =~= ps@);
    v
}

/// Matches `text` against plugin rules (attack type, patterns), skipping
/// rules without patterns.
pub fn evaluate_plugin_rules(text: &str, plugin_rules: &[(String, Vec<String>)]) -> (matched: Vec<String>)
    ensures
        matched@.map_values(|s: String| s@) == plugin_matched(text@, rules_view(plugin_rules@)),
{
    let mut matched: Vec<String> = Vec::new();
    let ghost v = rules_view(plugin_rules@);
    let mut i: usize = 0;
    assert(v.take(0) =~= Seq::<(Seq<char>, Seq<Seq<char>>)>::empty());
    while i < plugin_rules.len()
        invariant
            i <= plugin_rules@.len(),
            v == rules_view(plugin_rules@),
            matched@.map_values(|s: String| s@) == plugin_matched(text@, v.take(i as int)),
        decreases plugin_rules.len() - i,
    {
        let attack_type = &plugin_rules[i].0;
        let patterns = &plugin_rules[i].1;
        assert(v.take(i + 1).drop_last() =~= v.take(i as int));
        assert(v.take(i + 1).last() == v[i as int]);
        if patterns.len() > 0 {
            let pats = pattern_strings(patterns);
            let pattern = combine_patterns(&pats);
            let hit = match regex_is_match(pattern.as_str(), text) {
                Some(b) => b,
                None => regex_is_match("$^", text) == Some(true),
            };
            if hit {
                let ghost before = matched@;
                matched.push(attack_type.clone());
                assert(matched@.map_values(|s: String| s@) =~= before.map_values(|s: String| s@).push(v[i as int].0));
            }
        }
        i = i + 1;
    }
    assert(v.take(v.len() as int) =~= v);
    matched
}

/// `a` followed by each element of `b` that is not already present.
pub open spec fn merge_unique(a: Seq<Seq<char>>, b: Seq<Seq<char>>) -> Seq<Seq<char>>
    decreases b.len(),
{
    if b.len() == 0 {
        a
    } else {
        let m = merge_unique(a, b.drop_last());
        if m.contains(b.last()) { m } else { m.push(b.last()) }
    }
}

/// Matches `text` against the built-in rules and the enabled detection
/// plugins of `registry`; plugin types already reported are not repeated.
pub fn check_rules_with_plugins(text: &str, registry: &PluginRegistry) -> (r: (bool, Vec<String>))
    ensures
        exists|ks: Seq<Seq<char>>| #[trigger] lists_selected(ks, registry.table(), Selection::DetectionRules)
            && r.1@.map_values(|s: String| s@) == merge_unique(
                matched_types(text@, builtin_rules_spec()),
                plugin_matched(text@, ks.map_values(|k: Seq<char>| rule_of(registry.table()[k]))),
            ),
        r.0 == (r.1@.len() > 0),
{
    let sets = builtin_rule_sets();
    let (_any, builtin) = check_rules(text, &sets);
    let rules = registry.detection_rules();
    let plugin = evaluate_plugin_rules(text, rules.as_slice());
    let ghost pv = plugin@.map_values(|s: String| s@);
    let mut all = builtin;
    let ghost a0 = all@.map_values(|s: String| s@);
    let mut i: usize = 0;
    assert(pv.take(0) =~= Seq::<Seq<char>>::empty());
    while i < plugin.len()
        invariant
            i <= plugin@.len(),
            pv == plugin@.map_values(|s: String| s@),
            all@.map_values(|s: String| s@) == merge_unique(a0, pv.take(i as int)),
        decreases plugin.len() - i,
    {
        assert(pv.take(i + 1).drop_last() =~= pv.take(i as int));
        assert(pv.take(i + 1).last() == plugin@[i as int]@);
        if !contains_text(&all, plugin[i].as_str()) {
            let ghost before = all@;
            all.push(plugin[i].clone());
            assert(all@.map_values(|s: String| s@) =~= before.map_values(|s: String| s@).push(plugin@[i as int]@));
        }
        i = i + 1;
    }
    assert(pv.take(pv.len() as int) =~= pv);
    let any = all.len() > 0;
    (any, all)
}

/// The merged list starts with `a`, holds every element of `b`, holds nothing
/// else, and repeats nothing when `a` repeats nothing.
pub proof fn law_merge_unique(a: Seq<Seq<char>>, b: Seq<Seq<char>>)
    ensures
        a.is_prefix_of(merge_unique(a, b)),
        forall|i: int| 0 <= i < b.len() ==> merge_unique(a, b).contains(#[trigger] b[i]),
        forall|x: Seq<char>| merge_unique(a, b).contains(x) ==> a.contains(x) || b.contains(x),
        a.no_duplicates() ==> merge_unique(a, b).no_duplicates(),
    decreases b.len(),
{
    if b.len() > 0 {
        let p = b.drop_last();
        law_merge_unique(a, p);
        let m = merge_unique(a, p);
        assert forall|i: int| 0 <= i < b.len() implies merge_unique(a, b).contains(#[trigger] b[i]) by {
            if i < b.len() - 1 {
                assert(p[i] == b[i]);
                assert(m.contains(p[i]));
                if !m.contains(b.last()) {
                    let k = choose|k: int| 0 <= k < m.len() && m[k] == p[i];
                    assert(m.push(b.last())[k] == b[i]);
                }
            } else {
                if !m.contains(b.last()) {
                    assert(m.push(b.last())[m.len() as int] == b.last());
                }
            }
        }
        assert forall|x: Seq<char>| merge_unique(a, b).contains(x) implies a.contains(x) || b.contains(x) by {
            if !m.contains(b.last()) {
                let k = choose|k: int| 0 <= k < m.push(b.last()).len() && m.push(b.last())[k] == x;
                if k < m.len() {
                    assert(m[k] == x);
                    if p.contains(x) {
                        let j = choose|j: int| 0 <= j < p.len() && p[j] == x;
                        assert(b[j] == x);
                    }
                } else {
                    assert(b[b.len() - 1] == x);
                }
            } else if p.contains(x) {
                let j = choose|j: int| 0 <= j < p.len() && p[j] == x;
                assert(b[j] == x);
            }
        }
        if !m.contains(b.last()) {
            let n = m.push(b.last());
            assert forall|i: int| 0 <= i < a.len() implies n[i] == a[i] by {
                assert(m[i] == a[i]);
            }
            if a.no_duplicates() {
                assert forall|i: int, j: int| 0 <= i < n.len() && 0 <= j < n.len() && i != j implies n[i] != n[j] by {
                    if i < m.len() && j < m.len() {
                    } else if i == m.len() {
                        assert(m[j] == n[j]);
                    } else {
                        assert(m[i] == n[i]);
                    }
                }
            }
        }
    } else {
        assert(a.is_prefix_of(a));
    }
}

/// Every reported type is the name of a rule set, in the sets' order.
pub proof fn lemma_matched_types_names(text: Seq<char>, sets: Seq<(Seq<char>, Seq<Seq<char>>)>)
    ensures
        forall|x: Seq<char>| matched_types(text, sets).contains(x) ==> exists|i: int| 0 <= i < sets.len() && sets[i].0 == x,
        (forall|i: int, j: int| 0 <= i < sets.len() && 0 <= j < sets.len() && i != j ==> sets[i].0 != sets[j].0)
            ==> matched_types(text, sets).no_duplicates(),
    decreases sets.len(),
{
    if sets.len() > 0 {
        let p = sets.drop_last();
        lemma_matched_types_names(text, p);
        let m = matched_types(text, p);
        assert forall|x: Seq<char>| matched_types(text, sets).contains(x) implies exists|i: int| 0 <= i < sets.len() && sets[i].0 == x by {
            if m.contains(x) {
                let i = choose|i: int| 0 <= i < p.len() && p[i].0 == x;
                assert(sets[i].0 == x);
            } else {
                assert(sets[sets.len() - 1].0 == x);
            }
        }
        if forall|i: int, j: int| 0 <= i < sets.len() && 0 <= j < sets.len() && i != j ==> sets[i].0 != sets[j].0 {
            assert forall|i: int, j: int| 0 <= i < p.len() && 0 <= j < p.len() && i != j implies p[i].0 != p[j].0 by {
                assert(sets[i] == p[i] && sets[j] == p[j]);
            }
            if regex_matches(combined_pattern(sets.last().1), text) == Some(true) {
                let n = m.push(sets.last().0);
                assert(!m.contains(sets.last().0)) by {
                    if m.contains(sets.last().0) {
                        let i = choose|i: int| 0 <= i < p.len() && p[i].0 == sets.last().0;
                        assert(sets[i].0 == sets[sets.len() - 1].0);
                    }
                }
                assert forall|i: int, j: int| 0 <= i < n.len() && 0 <= j < n.len() && i != j implies n[i] != n[j] by {
                    if i == m.len() {
                        assert(m.contains(n[j]));
                    } else if j == m.len() {
                        assert(m.contains(n[i]));
                    }
                }
            }
        }
    }
}

/// The built-in rule sets have distinct attack types.
pub proof fn lemma_builtin_names_distinct()
    ensures
        forall|i: int, j: int| 0 <= i < builtin_rules_spec().len() && 0 <= j < builtin_rules_spec().len() && i != j
            ==> builtin_rules_spec()[i].0 != builtin_rules_spec()[j].0,
{
    reveal_strlit("xss");
    reveal_strlit("sql_injection");
    reveal_strlit("path_traversal");
    reveal_strlit("rce");
    reveal_strlit("ssrf");
    reveal_strlit("xxe");
    reveal_strlit("ssti");
    reveal_strlit("file_upload");
    reveal_strlit("scanner");
    assert("xss"@[1] != "xxe"@[1]);
    assert("xss"@[0] != "rce"@[0]);
    assert("rce"@[0] != "xxe"@[0]);
    assert("ssrf"@[2] != "ssti"@[2]);
    let n = builtin_rules_spec().map_values(|e: (Seq<char>, Seq<Seq<char>>)| e.0);
    assert(n =~= seq!["xss"@, "sql_injection"@, "path_traversal"@, "rce"@, "ssrf"@, "xxe"@, "ssti"@, "file_upload"@, "scanner"@]);
    assert forall|i: int, j: int| 0 <= i < 9 && 0 <= j < 9 && i != j implies #[trigger] n[i] != #[trigger] n[j] by {
        assert(n[i] == builtin_rules_spec()[i].0);
    }
}

/// Rule checking with plugins, whatever the order of the plugin rules, reports
/// each attack type at most once, reports
/// every built-in and every plugin type that matched, the built-in ones first,
/// and nothing else.
pub proof fn law_rules_with_plugins_report_each_type_once(text: Seq<char>, rules: Seq<(Seq<char>, Seq<Seq<char>>)>)
    ensures
        ({
            let builtin = matched_types(text, builtin_rules_spec());
            let plugin = plugin_matched(text, rules);
            let all = merge_unique(builtin, plugin);
            &&& all.no_duplicates()
            &&& builtin.is_prefix_of(all)
            &&& forall|i: int| 0 <= i < plugin.len() ==> all.contains(#[trigger] plugin[i])
            &&& forall|x: Seq<char>| all.contains(x) ==> builtin.contains(x) || plugin.contains(x)
        }),
{
    lemma_builtin_names_distinct();
    lemma_matched_types_names(text, builtin_rules_spec());
    law_merge_unique(matched_types(text, builtin_rules_spec()), plugin_matched(text, rules));
}

/// The built-in rule sets are, in this order, exactly these attack types
/// with exactly these patterns; in particular `sql_injection` holds 31
/// patterns, among them the one for `drop table` and its kin.
pub proof fn law_builtin_catalogue()
    ensures
        builtin_rules_spec() == seq![
            ("xss"@, seq![
                r#"<script[\s\S]*?>"#@,
                r#"</script>"#@,
                r#"javascript\s*:"#@,
                r#"vbscript\s*:"#@,
                r#"on(load|error|click|mouseover|focus|blur|change|submit|keyup|keydown|input|mousewheel|contextmenu|drag|drop)\s*="#@,
                r#"<iframe[\s\S]*?>"#@,
                r#"<img[^>]+src\s*=\s*['\"]?\s*javascript:"#@,
                r#"<svg[\s\S]*?on\w+\s*="#@,
                r#"<object[\s\S]*?>"#@,
                r#"<embed[\s\S]*?>"#@,
                r#"<link[^>]+href[^>]+stylesheet"#@,
                r#"expression\s*\("#@,
                r#"(alert|confirm|prompt|eval|atob|execCommand|setTimeout|setInterval)\s*[(`]"#@,
                r#"document\s*\.\s*(cookie|write|location|domain)"#@,
                r#"window\s*\.\s*(location|name|open|eval)"#@,
                r#"String\.fromCharCode"#@,
                r#"&#x[0-9a-f]+;"#@,
                r#"&#\d+;"#@,
                r#"%3cscript"#@,
                r#"%3e"#@,
                r#"data\s*:\s*text/html"#@,
                r#"base64\s*,"#@,
                r#"location\s*=\s*['\"]javascript:"#@,
            ]),
            ("sql_injection"@, seq![
                r#"'\s*(or|and)\s*'?\d"#@,
                r#"'\s*(or|and)\s+\d+\s*=\s*\d+"#@,
                r#"union\s+(all\s+)?select"#@,
                r#"select\s+.+?\s+from\s+"#@,
                r#"insert\s+into\s+"#@,
                r#"update\s+\w+\s+set\s+"#@,
                r#"delete\s+from\s+"#@,
                r#"drop\s+(table|database|index|view)"#@,
                r#"alter\s+(table|database)"#@,
                r#"create\s+(table|database|index|view)"#@,
                r#"exec(\s|\+)+(s|x)p\w+"#@,
                r#"xp_cmdshell"#@,
                r#"information_schema"#@,
                r#"sys\.(tables|columns|objects)"#@,
                r#"sleep\s*\(\s*\d+\s*\)"#@,
                r#"benchmark\s*\("#@,
                r#"waitfor\s+delay"#@,
                r#"load_file\s*\("#@,
                r#"into\s+(out|dump)file"#@,
                r#"--\s"#@,
                r#";\s*--"#@,
                r#"/\*.*?\*/"#@,
                r#"(#|--)\s*$"#@,
                r#"0x[0-9a-f]{4,}"#@,
                r#"char\s*\(\s*\d+"#@,
                r#"concat\s*\("#@,
                r#"group_concat\s*\("#@,
                r#"(extractvalue|updatexml|floor|geometrycollection|multipoint|polygon)\s*\("#@,
                r#"procedure\s+analyse\s*\("#@,
                r#"select\s+pg_sleep"#@,
                r#"dbms_pipe\.receive_message"#@,
            ]),
            ("path_traversal"@, seq![
                r#"\.\./"#@,
                r#"\.\.\\\"#@,
                r#"%2e%2e%2f"#@,
                r#"%2e%2e/"#@,
                r#"\.\.%2f"#@,
                r#"%252e%252e"#@,
                r#"etc/passwd"#@,
                r#"etc/shadow"#@,
                r#"etc/hosts"#@,
                r#"proc/self/environ"#@,
                r#"proc/self/cmdline"#@,
                r#"windows/system32"#@,
                r#"win\.ini"#@,
                r#"boot\.ini"#@,
                r#"/var/log/"#@,
                r#"\.htaccess"#@,
                r#"\.env"#@,
                r#"wp-config\.php"#@,
                r#"web\.config"#@,
                r#"\.git/config"#@,
                r#"\.DS_Store"#@,
                r#"WEB-INF/"#@,
                r#"META-INF/"#@,
                r#"appsettings\.json"#@,
            ]),
            ("rce"@, seq![
                r#"(?:^|[;\|&])\s*(ls|dir|pwd|whoami|id|uname|cat|wget|curl|bash|sh|python|perl|ruby|php|node|powershell|cmd)\s+"#@,
                r#"system\s*\("#@,
                r#"passthru\s*\("#@,
                r#"shell_exec\s*\("#@,
                r#"popen\s*\("#@,
                r#"proc_open\s*\("#@,
                r#"exec\s*\("#@,
                r#"assert\s*\("#@,
                r#"preg_replace\s*\(.+/e"#@,
                r#"call_user_func\s*\("#@,
                r#"base64_decode\s*\("#@,
                r#"file_get_contents\s*\("#@,
                r#"include\s*\("#@,
                r#"require\s*\("#@,
                r#"phpinfo\s*\("#@,
                r#"nc\s+-[el]"#@,
                r#"/bin/(bash|sh|zsh|ksh)"#@,
                r#"python\s+-c\s+['\"]import"#@,
                r#"curl\s+.+\|\s*(bash|sh)"#@,
                r#"java\.lang\.Runtime"#@,
                r#"ProcessBuilder"#@,
                r#"getRuntime\(\)\.exec"#@,
                r#"\$\(\w+\)"#@,
                r#"`\w+`"#@,
                r#"\$\{jndi:(?:ldap|rmi|dns|nis|iiop|corba|nds|http):.*?\}"#@,
                r#"class\.module\.classLoader\.resources\.context\.parent\.pipeline\.first\.pattern"#@,
            ]),
            ("ssrf"@, seq![
                r#"http://169\.254\.169\.254"#@,
                r#"http://metadata\.google\.internal"#@,
                r#"http://192\.168\."#@,
                r#"http://10\."#@,
                r#"http://172\.(1[6-9]|2\d|3[01])\."#@,
                r#"http://0\.0\.0\.0"#@,
                r#"file://"#@,
                r#"dict://"#@,
                r#"gopher://"#@,
                r#"ftp://"#@,
                r#"sftp://"#@,
                r#"ldap://"#@,
                r#"tftp://"#@,
                r#"jar://"#@,
                r#"netdoc://"#@,
                r#"0x7f000001"#@,
                r#"2130706433"#@,
            ]),
            ("xxe"@, seq![
                r#"<!ENTITY"#@,
                r#"<!DOCTYPE[^>]+SYSTEM"#@,
                r#"<!DOCTYPE[^>]+PUBLIC"#@,
                r#"SYSTEM\s+['\"]file://"#@,
                r#"SYSTEM\s+['\"]http://"#@,
                r#"%[a-z]+;"#@,
                r#"<!\[CDATA\["#@,
            ]),
            ("ssti"@, seq![
                r#"\{\{.*?\}\}"#@,
                r#"\{%.*?%\}"#@,
                r#"\$\{.*?\}"#@,
                r#"#\{.*?\}"#@,
                r#"\{\{7\*7\}\}"#@,
                r#"__class__"#@,
                r#"__mro__"#@,
                r#"__subclasses__"#@,
                r#"__import__"#@,
                r#"__builtins__"#@,
                r#"mako\.runtime"#@,
                r#"jinja2\.environment"#@,
            ]),
            ("file_upload"@, seq![
                r#"\.(php|php3|php4|php5|phtml|phar|jsp|jspx|jspf|asp|aspx|asa|cer|cdx|exe|sh|pl|py|cgi)\s*$"#@,
                r#"Content-Type.*application/x-php"#@,
                r#"GIF89a.*<\?php"#@,
                r#"<\?php"#@,
                r#"<%@\s*page"#@,
                r#"<%\s*Runtime"#@,
            ]),
            ("scanner"@, seq![
                r#"sqlmap"#@,
                r#"nmap"#@,
                r#"nikto"#@,
                r#"burpsuite"#@,
                r#"acunetix"#@,
                r#"nessus"#@,
                r#"openvas"#@,
                r#"masscan"#@,
                r#"zgrab"#@,
                r#"nuclei"#@,
                r#"dirsearch"#@,
                r#"gobuster"#@,
                r#"hydra"#@,
                r#"wpscan"#@,
                r#"skipfish"#@,
                r#"python-requests/"#@,
                r#"go-http-client"#@,
                r#"postmanruntime"#@,
            ]),
        ],
        builtin_rules_spec()[1].0 == "sql_injection"@,
        builtin_rules_spec()[1].1.len() == 31,
        builtin_rules_spec()[1].1.contains(r#"drop\s+(table|database|index|view)"#@),
{
    assert(builtin_rules_spec()[1].1[7] == r#"drop\s+(table|database|index|view)"#@);
}

} // verus!
