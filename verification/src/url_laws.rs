//! What holds of every URL that a request takes in.

use crate::connection::{RemoteModel, WslModel};
use crate::encoding::UrlModel;
use crate::open_request as request_side;
use crate::open_request::{
    AnswerModel, KindModel, LinkModel, OpenBehavior, OpenFault, OpenModel, QuestionModel,
};
use crate::remote_connections::SettingModel;
use vstd::prelude::*;

verus! {

/// The request once a URL is taken in, given what was found out about it.
pub open spec fn taken(
    request: OpenModel,
    url: Seq<char>,
    skill_prefix: Seq<char>,
    answer: AnswerModel,
    settings: Seq<SettingModel>,
) -> Result<OpenModel, OpenFault> {
    request_side::with_url(request, request_side::classified(url, skill_prefix), answer, settings)
}

/// What has to be found out before a URL is taken in.
pub open spec fn asked(url: Seq<char>, skill_prefix: Seq<char>) -> QuestionModel {
    request_side::question(request_side::classified(url, skill_prefix))
}

/// How a URL of the application's own scheme is told from the others, by the letters behind the
/// scheme.
proof fn lemma_own_scheme(url: Seq<char>)
    requires
        url.len() > 7,
        url[0] == 'z',
        url[3] == ':',
    ensures
        crate::text::after_prefix(url, "zed-cli://"@) is None,
        crate::text::after_prefix(url, "zed-dock-action://"@) is None,
        crate::text::after_prefix(url, "file://"@) is None,
        !crate::text::has_prefix(url, "ssh://"@),
        url != "zed://"@,
        url[6] != 'f' ==> crate::text::after_prefix(url, "zed://file"@) is None,
        url[6] != 's' || url[7] != 's' ==> crate::text::after_prefix(url, "zed://ssh"@) is None,
        url[6] != 'e' ==> crate::text::after_prefix(url, "zed://extension/"@) is None,
        url[6] != 'a' ==> crate::text::after_prefix(url, "zed://agent"@) is None,
        url[6] != 'o' ==> url != "zed://open"@ && url != "zed://open/"@,
        url[6] != 's' || url[7] != 'c' ==> crate::text::after_prefix(url, "zed://schemas/"@) is None,
        url[6] != 's' || url[7] != 'e' ==> url != "zed://settings"@ && url != "zed://settings/"@
            && crate::text::after_prefix(url, "zed://settings/"@) is None,
        url[6] != 'g' ==> crate::text::after_prefix(url, "zed://git/clone"@) is None,
        url[6] != 'g' ==> crate::text::after_prefix(url, "zed://git/commit/"@) is None,
        url.len() > 11 && url[11] != 'l' ==> crate::text::after_prefix(url, "zed://git/clone"@) is None,
{
    reveal_strlit("zed-cli://");
    reveal_strlit("zed-dock-action://");
    reveal_strlit("file://");
    reveal_strlit("zed://file");
    reveal_strlit("zed://ssh");
    reveal_strlit("zed://extension/");
    reveal_strlit("zed://agent");
    reveal_strlit("zed://");
    reveal_strlit("zed://open");
    reveal_strlit("zed://open/");
    reveal_strlit("zed://schemas/");
    reveal_strlit("zed://settings");
    reveal_strlit("zed://settings/");
    reveal_strlit("zed://git/clone");
    reveal_strlit("zed://git/commit/");
    reveal_strlit("ssh://");
    crate::text_laws::lemma_no_prefix(url, "zed-cli://"@, 3);
    crate::text_laws::lemma_no_prefix(url, "zed-dock-action://"@, 3);
    crate::text_laws::lemma_no_prefix(url, "file://"@, 0);
    crate::text_laws::lemma_no_prefix(url, "ssh://"@, 0);
    if url[6] != 'f' {
        crate::text_laws::lemma_no_prefix(url, "zed://file"@, 6);
    }
    if url[6] != 's' {
        crate::text_laws::lemma_no_prefix(url, "zed://ssh"@, 6);
        crate::text_laws::lemma_no_prefix(url, "zed://schemas/"@, 6);
        crate::text_laws::lemma_no_prefix(url, "zed://settings/"@, 6);
        assert("zed://settings"@[6] == 's');
        assert("zed://settings/"@[6] == 's');
    }
    if url[7] != 's' {
        crate::text_laws::lemma_no_prefix(url, "zed://ssh"@, 7);
    }
    if url[7] != 'c' {
        crate::text_laws::lemma_no_prefix(url, "zed://schemas/"@, 7);
    }
    if url[7] != 'e' {
        crate::text_laws::lemma_no_prefix(url, "zed://settings/"@, 7);
        assert("zed://settings"@[7] == 'e');
        assert("zed://settings/"@[7] == 'e');
    }
    if url[6] != 'e' {
        crate::text_laws::lemma_no_prefix(url, "zed://extension/"@, 6);
    }
    if url[6] != 'a' {
        crate::text_laws::lemma_no_prefix(url, "zed://agent"@, 6);
    }
    if url[6] != 'o' {
        assert("zed://open"@[6] == 'o');
        assert("zed://open/"@[6] == 'o');
    }
    if url[6] != 'g' {
        crate::text_laws::lemma_no_prefix(url, "zed://git/clone"@, 6);
        crate::text_laws::lemma_no_prefix(url, "zed://git/commit/"@, 6);
    }
    if url.len() > 11 && url[11] != 'l' {
        crate::text_laws::lemma_no_prefix(url, "zed://git/clone"@, 11);
    }
}

proof fn lemma_not_a_skill(url: Seq<char>, skill_prefix: Seq<char>)
    requires
        !skill_prefix.is_prefix_of(url),
    ensures
        !crate::text::has_prefix(url, skill_prefix),
{
    if crate::text::has_prefix(url, skill_prefix) {
        assert(skill_prefix =~= url.subrange(0, skill_prefix.len() as int));
    }
}

/// A settings URL with a path opens the settings at that path, and leaves the rest of the request as
/// it was.
pub proof fn law_settings_open_at_the_setting(
    request: OpenModel,
    setting: Seq<char>,
    skill_prefix: Seq<char>,
    answer: AnswerModel,
    settings: Seq<SettingModel>,
)
    requires
        setting.len() > 0,
        !skill_prefix.is_prefix_of("zed://settings/"@ + setting),
    ensures
        taken(request, "zed://settings/"@ + setting, skill_prefix, answer, settings) == Ok::<OpenModel, OpenFault>(
            OpenModel { kind: Some(KindModel::Setting { setting: Some(setting) }), ..request },
        ),
        asked("zed://settings/"@ + setting, skill_prefix) == QuestionModel::Nothing,
{
    reveal_strlit("zed://settings");
    reveal_strlit("zed://settings/");
    let url = "zed://settings/"@ + setting;
    lemma_own_scheme(url);
    lemma_not_a_skill(url, skill_prefix);
    crate::text_laws::law_prefix_and_rest_make_up_the_text("zed://settings/"@, setting);
    assert(url.len() > 15);
}

/// A settings URL without a path opens the settings as a whole.
pub proof fn law_settings_open_as_a_whole(
    request: OpenModel,
    url: Seq<char>,
    skill_prefix: Seq<char>,
    answer: AnswerModel,
    settings: Seq<SettingModel>,
)
    requires
        url == "zed://settings"@ || url == "zed://settings/"@,
        !skill_prefix.is_prefix_of(url),
    ensures
        taken(request, url, skill_prefix, answer, settings) == Ok::<OpenModel, OpenFault>(
            OpenModel { kind: Some(KindModel::Setting { setting: None }), ..request },
        ),
{
    reveal_strlit("zed://settings");
    reveal_strlit("zed://settings/");
    lemma_own_scheme(url);
    lemma_not_a_skill(url, skill_prefix);
}

/// An extension URL opens the extension with the identity behind it.
pub proof fn law_extensions_open_by_id(
    request: OpenModel,
    id: Seq<char>,
    skill_prefix: Seq<char>,
    answer: AnswerModel,
    settings: Seq<SettingModel>,
)
    ensures
        taken(request, "zed://extension/"@ + id, skill_prefix, answer, settings) == Ok::<OpenModel, OpenFault>(
            OpenModel { kind: Some(KindModel::Extension { id }), ..request },
        ),
        asked("zed://extension/"@ + id, skill_prefix) == QuestionModel::Nothing,
{
    reveal_strlit("zed://extension/");
    let url = "zed://extension/"@ + id;
    lemma_own_scheme(url);
    crate::text_laws::law_prefix_and_rest_make_up_the_text("zed://extension/"@, id);
}

/// A schema URL opens the built-in schema with the path behind it.
pub proof fn law_schemas_open_by_path(
    request: OpenModel,
    path: Seq<char>,
    skill_prefix: Seq<char>,
    answer: AnswerModel,
    settings: Seq<SettingModel>,
)
    requires
        !skill_prefix.is_prefix_of("zed://schemas/"@ + path),
    ensures
        taken(request, "zed://schemas/"@ + path, skill_prefix, answer, settings) == Ok::<OpenModel, OpenFault>(
            OpenModel { kind: Some(KindModel::BuiltinJsonSchema { path }), ..request },
        ),
        asked("zed://schemas/"@ + path, skill_prefix) == QuestionModel::Nothing,
{
    reveal_strlit("zed://schemas/");
    let url = "zed://schemas/"@ + path;
    lemma_own_scheme(url);
    lemma_not_a_skill(url, skill_prefix);
    crate::text_laws::law_prefix_and_rest_make_up_the_text("zed://schemas/"@, path);
}

/// The bare scheme, with or without `open`, brings the application to the front.
pub proof fn law_bare_urls_focus_the_application(
    request: OpenModel,
    url: Seq<char>,
    skill_prefix: Seq<char>,
    answer: AnswerModel,
    settings: Seq<SettingModel>,
)
    requires
        url == "zed://"@ || url == "zed://open"@ || url == "zed://open/"@,
        !skill_prefix.is_prefix_of(url),
    ensures
        taken(request, url, skill_prefix, answer, settings) == Ok::<OpenModel, OpenFault>(
            OpenModel { kind: Some(KindModel::FocusApp), ..request },
        ),
{
    reveal_strlit("zed-cli://");
    reveal_strlit("zed-dock-action://");
    reveal_strlit("file://");
    reveal_strlit("zed://file");
    reveal_strlit("zed://ssh");
    reveal_strlit("zed://extension/");
    reveal_strlit("zed://agent");
    reveal_strlit("zed://");
    reveal_strlit("zed://open");
    reveal_strlit("zed://open/");
    reveal_strlit("zed://schemas/");
    reveal_strlit("zed://settings");
    reveal_strlit("zed://settings/");
    reveal_strlit("zed://git/clone");
    reveal_strlit("zed://git/commit/");
    reveal_strlit("ssh://");
    lemma_not_a_skill(url, skill_prefix);
    crate::text_laws::lemma_no_prefix(url, "zed-cli://"@, 3);
    crate::text_laws::lemma_no_prefix(url, "zed-dock-action://"@, 3);
    crate::text_laws::lemma_no_prefix(url, "file://"@, 0);
    crate::text_laws::lemma_no_prefix(url, "zed://file"@, 6);
    crate::text_laws::lemma_no_prefix(url, "zed://ssh"@, 6);
    crate::text_laws::lemma_no_prefix(url, "zed://extension/"@, 6);
    crate::text_laws::lemma_no_prefix(url, "zed://agent"@, 6);
}

/// An agent URL without a prompt opens the agent panel without one.
pub proof fn law_agent_urls_open_the_panel(
    request: OpenModel,
    skill_prefix: Seq<char>,
    answer: AnswerModel,
    settings: Seq<SettingModel>,
)
    requires
        !skill_prefix.is_prefix_of("zed://agent"@),
    ensures
        taken(request, "zed://agent"@, skill_prefix, answer, settings) == Ok::<OpenModel, OpenFault>(
            OpenModel { kind: Some(KindModel::AgentPanel { prompt: None }), ..request },
        ),
        asked("zed://agent"@, skill_prefix) == QuestionModel::Nothing,
{
    reveal_strlit("zed://agent");
    reveal_strlit("/");
    reveal_strlit("?");
    let url = "zed://agent"@;
    lemma_own_scheme(url);
    lemma_not_a_skill(url, skill_prefix);
    crate::text_laws::law_prefix_and_rest_make_up_the_text("zed://agent"@, Seq::<char>::empty());
    assert(url + Seq::<char>::empty() =~= url);
    crate::text_laws::lemma_no_prefix(Seq::<char>::empty(), "/"@, 0);
    crate::text_laws::lemma_no_prefix(Seq::<char>::empty(), "?"@, 0);
}

/// An agent URL with form data asks for its first prompt to be made fit, and opens the agent panel
/// with what comes back.
pub proof fn law_agent_prompts_are_shown_as_answered(
    request: OpenModel,
    query: Seq<char>,
    at: int,
    shown: Option<Seq<char>>,
    skill_prefix: Seq<char>,
    settings: Seq<SettingModel>,
)
    requires
        !skill_prefix.is_prefix_of("zed://agent?"@ + query),
        0 <= at < crate::encoding::form_pairs(query).len(),
        crate::encoding::form_pairs(query)[at].0 == "prompt"@,
        forall|j: int|
            0 <= j < at ==> (#[trigger] crate::encoding::form_pairs(query)[j]).0 != "prompt"@,
    ensures
        asked("zed://agent?"@ + query, skill_prefix) == (QuestionModel::SanitizePrompt {
            prompt: crate::encoding::form_pairs(query)[at].1,
        }),
        taken(
            request,
            "zed://agent?"@ + query,
            skill_prefix,
            AnswerModel::Prompt { prompt: shown },
            settings,
        ) == Ok::<OpenModel, OpenFault>(
            OpenModel { kind: Some(KindModel::AgentPanel { prompt: shown }), ..request },
        ),
{
    reveal_strlit("zed://agent");
    reveal_strlit("zed://agent?");
    reveal_strlit("/");
    reveal_strlit("?");
    let url = "zed://agent?"@ + query;
    let path = "?"@ + query;
    lemma_own_scheme(url);
    lemma_not_a_skill(url, skill_prefix);
    assert(url =~= "zed://agent"@ + path);
    crate::text_laws::law_prefix_and_rest_make_up_the_text("zed://agent"@, path);
    crate::text_laws::lemma_no_prefix(path, "/"@, 0);
    crate::text_laws::law_prefix_and_rest_make_up_the_text("?"@, query);
    lemma_first_pair(crate::encoding::form_pairs(query), "prompt"@, at);
}

proof fn lemma_first_pair(pairs: Seq<(Seq<char>, Seq<char>)>, name: Seq<char>, at: int)
    requires
        0 <= at < pairs.len(),
        pairs[at].0 == name,
        forall|j: int| 0 <= j < at ==> (#[trigger] pairs[j]).0 != name,
    ensures
        crate::encoding::first_value(pairs, name) == Some(pairs[at].1),
    decreases pairs.len(),
{
    if at > 0 {
        assert(pairs[0].0 != name);
        let rest = pairs.skip(1);
        assert forall|j: int| 0 <= j < at - 1 implies (#[trigger] rest[j]).0 != name by {
            assert(pairs[j + 1] == rest[j]);
        }
        lemma_first_pair(rest, name, at - 1);
    }
}

/// A link that carries a skill asks for it to be decoded. What is decoded is to be installed; what
/// is not is refused in the words that came back.
pub proof fn law_skills_are_installed_as_decoded(
    request: OpenModel,
    skill_prefix: Seq<char>,
    data: Seq<char>,
    content: Seq<char>,
    message: Seq<char>,
    settings: Seq<SettingModel>,
)
    requires
        "zed://sk"@.is_prefix_of(skill_prefix),
    ensures
        asked(skill_prefix + data, skill_prefix) == QuestionModel::DecodeSkill,
        taken(request, skill_prefix + data, skill_prefix, AnswerModel::Skill { content }, settings)
            == Ok::<OpenModel, OpenFault>(
            OpenModel { kind: Some(KindModel::InstallSkill { content }), ..request },
        ),
        taken(request, skill_prefix + data, skill_prefix, AnswerModel::Failed { message }, settings)
            == Err::<OpenModel, OpenFault>(OpenFault::Outside(message)),
{
    reveal_strlit("zed://sk");
    let url = skill_prefix + data;
    let start = "zed://sk"@;
    assert(forall|i: int| 0 <= i < start.len() ==> url[i] == skill_prefix.subrange(
        0,
        start.len() as int,
    )[i]);
    assert(url[0] == start[0] && url[3] == start[3] && url[6] == start[6] && url[7] == start[7]);
    lemma_own_scheme(url);
    crate::text_laws::law_prefix_and_rest_make_up_the_text(skill_prefix, data);
}

/// A URL of the command line asks for a connection under the name behind it, and the request is
/// that connection, or is refused in the words that came back.
pub proof fn law_cli_urls_connect(
    request: OpenModel,
    server_name: Seq<char>,
    connection: u64,
    message: Seq<char>,
    skill_prefix: Seq<char>,
    settings: Seq<SettingModel>,
)
    ensures
        asked("zed-cli://"@ + server_name, skill_prefix) == (QuestionModel::ConnectCli {
            server_name,
        }),
        taken(
            request,
            "zed-cli://"@ + server_name,
            skill_prefix,
            AnswerModel::Connected { connection },
            settings,
        ) == Ok::<OpenModel, OpenFault>(
            OpenModel { kind: Some(KindModel::CliConnection { connection }), ..request },
        ),
        taken(
            request,
            "zed-cli://"@ + server_name,
            skill_prefix,
            AnswerModel::Failed { message },
            settings,
        ) == Err::<OpenModel, OpenFault>(OpenFault::Outside(message)),
{
    crate::text_laws::law_prefix_and_rest_make_up_the_text("zed-cli://"@, server_name);
}

/// A URL of the dock menu stands for the action whose number is behind it.
pub proof fn law_dock_urls_name_the_action(
    request: OpenModel,
    index: usize,
    skill_prefix: Seq<char>,
    answer: AnswerModel,
    settings: Seq<SettingModel>,
)
    ensures
        taken(
            request,
            "zed-dock-action://"@ + crate::text::decimal(index as nat),
            skill_prefix,
            answer,
            settings,
        ) == Ok::<OpenModel, OpenFault>(
            OpenModel { kind: Some(KindModel::DockMenuAction { index }), ..request },
        ),
{
    reveal_strlit("zed-cli://");
    reveal_strlit("zed-dock-action://");
    let numeral = crate::text::decimal(index as nat);
    crate::text_laws::lemma_no_prefix("zed-dock-action://"@ + numeral, "zed-cli://"@, 4);
    crate::text_laws::law_prefix_and_rest_make_up_the_text("zed-dock-action://"@, numeral);
    crate::text_laws::law_numerals_read_back(index);
}

/// A URL of the dock menu with anything but digits behind its sign is refused.
pub proof fn law_dock_urls_need_a_number(
    request: OpenModel,
    text: Seq<char>,
    i: int,
    skill_prefix: Seq<char>,
    answer: AnswerModel,
    settings: Seq<SettingModel>,
)
    requires
        0 <= i < text.len(),
        !('0' <= text[i] <= '9'),
        text[i] != '+' || i > 0,
    ensures
        taken(request, "zed-dock-action://"@ + text, skill_prefix, answer, settings) matches Err(fault)
            && fault is BadDockIndex,
{
    reveal_strlit("zed-cli://");
    reveal_strlit("zed-dock-action://");
    crate::text_laws::lemma_no_prefix("zed-dock-action://"@ + text, "zed-cli://"@, 4);
    crate::text_laws::law_prefix_and_rest_make_up_the_text("zed-dock-action://"@, text);
    crate::text_laws::law_other_characters_are_no_digits(text, i);
}

/// A file URL opens the path behind it, with its encoding undone, behind the paths that are there.
pub proof fn law_file_urls_open_the_path(
    request: OpenModel,
    path: Seq<char>,
    skill_prefix: Seq<char>,
    answer: AnswerModel,
    settings: Seq<SettingModel>,
)
    ensures
        taken(
            request,
            "file://"@ + crate::encoding::percent_encoded(path),
            skill_prefix,
            answer,
            settings,
        ) == Ok::<OpenModel, OpenFault>(
            OpenModel { open_paths: request.open_paths.push(path), ..request },
        ),
        taken(
            request,
            "zed://file"@ + crate::encoding::percent_encoded(path),
            skill_prefix,
            answer,
            settings,
        ) == Ok::<OpenModel, OpenFault>(
            OpenModel { open_paths: request.open_paths.push(path), ..request },
        ),
{
    reveal_strlit("file://");
    reveal_strlit("zed://file");
    reveal_strlit("zed-cli://");
    reveal_strlit("zed-dock-action://");
    let encoded = crate::encoding::percent_encoded(path);
    crate::encoding::law_decoding_undoes_encoding(path);
    crate::text_laws::lemma_no_prefix("file://"@ + encoded, "zed-cli://"@, 0);
    crate::text_laws::lemma_no_prefix("file://"@ + encoded, "zed-dock-action://"@, 0);
    crate::text_laws::law_prefix_and_rest_make_up_the_text("file://"@, encoded);
    lemma_own_scheme("zed://file"@ + encoded);
    crate::text_laws::law_prefix_and_rest_make_up_the_text("zed://file"@, encoded);
}

/// An address of the application's own scheme leads where the plain SSH address does.
pub proof fn law_own_ssh_urls_are_ssh_urls(
    request: OpenModel,
    rest: Seq<char>,
    skill_prefix: Seq<char>,
    answer: AnswerModel,
    settings: Seq<SettingModel>,
)
    requires
        !skill_prefix.is_prefix_of("ssh://"@ + rest),
    ensures
        taken(request, "zed://ssh/"@ + rest, skill_prefix, answer, settings) == taken(
            request,
            "ssh://"@ + rest,
            skill_prefix,
            answer,
            settings,
        ),
{
    reveal_strlit("zed-cli://");
    reveal_strlit("zed-dock-action://");
    reveal_strlit("file://");
    reveal_strlit("zed://file");
    reveal_strlit("zed://ssh");
    reveal_strlit("zed://extension/");
    reveal_strlit("zed://agent");
    reveal_strlit("zed://");
    reveal_strlit("zed://open");
    reveal_strlit("zed://open/");
    reveal_strlit("zed://schemas/");
    reveal_strlit("zed://settings");
    reveal_strlit("zed://settings/");
    reveal_strlit("zed://git/clone");
    reveal_strlit("zed://git/commit/");
    reveal_strlit("ssh://");
    reveal_strlit("zed://ssh/");
    reveal_strlit("ssh:/");
    let own = "zed://ssh/"@ + rest;
    let plain = "ssh://"@ + rest;
    lemma_own_scheme(own);
    lemma_not_a_skill(plain, skill_prefix);
    assert(own =~= "zed://ssh"@ + (seq!['/'] + rest));
    crate::text_laws::law_prefix_and_rest_make_up_the_text("zed://ssh"@, seq!['/'] + rest);
    assert("ssh:/"@ + (seq!['/'] + rest) =~= plain);
    lemma_plain_ssh(rest, skill_prefix);
}

proof fn lemma_plain_ssh(rest: Seq<char>, skill_prefix: Seq<char>)
    requires
        !skill_prefix.is_prefix_of("ssh://"@ + rest),
    ensures
        request_side::classified("ssh://"@ + rest, skill_prefix)
            == (request_side::UrlKindModel::Ssh { url: "ssh://"@ + rest }),
{
    reveal_strlit("zed-cli://");
    reveal_strlit("zed-dock-action://");
    reveal_strlit("file://");
    reveal_strlit("zed://file");
    reveal_strlit("zed://ssh");
    reveal_strlit("zed://extension/");
    reveal_strlit("zed://agent");
    reveal_strlit("zed://");
    reveal_strlit("zed://open");
    reveal_strlit("zed://open/");
    reveal_strlit("zed://schemas/");
    reveal_strlit("zed://settings");
    reveal_strlit("zed://settings/");
    reveal_strlit("zed://git/clone");
    reveal_strlit("zed://git/commit/");
    reveal_strlit("ssh://");
    let plain = "ssh://"@ + rest;
    lemma_not_a_skill(plain, skill_prefix);
    crate::text_laws::lemma_no_prefix(plain, "zed-cli://"@, 0);
    crate::text_laws::lemma_no_prefix(plain, "zed-dock-action://"@, 0);
    crate::text_laws::lemma_no_prefix(plain, "file://"@, 0);
    crate::text_laws::lemma_no_prefix(plain, "zed://file"@, 0);
    crate::text_laws::lemma_no_prefix(plain, "zed://ssh"@, 0);
    crate::text_laws::lemma_no_prefix(plain, "zed://extension/"@, 0);
    crate::text_laws::lemma_no_prefix(plain, "zed://agent"@, 0);
    crate::text_laws::lemma_no_prefix(plain, "zed://schemas/"@, 0);
    crate::text_laws::lemma_no_prefix(plain, "zed://settings/"@, 0);
    crate::text_laws::lemma_no_prefix(plain, "zed://git/clone"@, 0);
    crate::text_laws::lemma_no_prefix(plain, "zed://git/commit/"@, 0);
    assert(plain[0] == 's');
    assert("zed://"@[0] == 'z' && "zed://open"@[0] == 'z' && "zed://open/"@[0] == 'z'
        && "zed://settings"@[0] == 'z' && "zed://settings/"@[0] == 'z');
    crate::text_laws::law_prefix_and_rest_make_up_the_text("ssh://"@, rest);
}

/// An SSH address that reads as a URL opens its path on the machine that it names, under the user
/// that it names, with the password that it gives. It is refused where there are paths on this
/// machine already, or places on another one.
pub proof fn law_ssh_urls_open_the_place(
    request: OpenModel,
    rest: Seq<char>,
    url: UrlModel,
    path: Seq<char>,
    user: Seq<char>,
    skill_prefix: Seq<char>,
    answer: AnswerModel,
    settings: Seq<SettingModel>,
)
    requires
        !skill_prefix.is_prefix_of("ssh://"@ + rest),
        crate::encoding::parsed_url("ssh://"@ + rest) == Ok::<UrlModel, Seq<char>>(url),
        url.host is Some,
        url.path == crate::encoding::percent_encoded(path),
        url.username == crate::encoding::percent_encoded(user),
        url.password matches Some(password) ==> crate::encoding::percent_decoded(password) is Some,
    ensures
        request.open_paths.len() > 0 ==> taken(
            request,
            "ssh://"@ + rest,
            skill_prefix,
            answer,
            settings,
        ) == Err::<OpenModel, OpenFault>(OpenFault::LocalAndSshPaths),
        request.open_paths.len() == 0 ==> match taken(
            request,
            "ssh://"@ + rest,
            skill_prefix,
            answer,
            settings,
        ) {
            Ok(next) => {
                &&& next.remote_connection matches Some(RemoteModel::Ssh(options)) && Some(options.host)
                    == url.host && options.port == url.port && options.username == (if user.len()
                    == 0 {
                    None
                } else {
                    Some(user)
                }) && (match url.password {
                    Some(password) => options.password == crate::encoding::percent_decoded(password),
                    None => options.password is None,
                })
                &&& request.remote_connection is Some ==> request.remote_connection
                    == next.remote_connection
                &&& next == (OpenModel {
                    open_paths: seq![path],
                    remote_connection: next.remote_connection,
                    ..request
                })
            },
            Err(fault) => fault is DifferentConnections && request.remote_connection is Some,
        },
{
    lemma_plain_ssh(rest, skill_prefix);
    crate::encoding::law_decoding_undoes_encoding(path);
    crate::encoding::law_decoding_undoes_encoding(user);
    let host = url.host->0;
    let name = request_side::ssh_username(url);
    lemma_encoded_empty(user);
    let bare = crate::remote_connections::bare_options(host, url.port, name->Ok_0);
    crate::remote_connections::law_settings_keep_the_place(bare, settings);
    assert(request.open_paths.len() == 0 ==> request.open_paths.push(path) =~= seq![path]);
}

proof fn lemma_encoded_empty(text: Seq<char>)
    ensures
        crate::encoding::percent_encoded(text).len() == 0 <==> text.len() == 0,
{
    crate::encoding::law_decoding_undoes_encoding(text);
    let none = Seq::<char>::empty();
    crate::encoding::law_decoding_undoes_encoding(none);
    vstd::utf8::is_ascii_chars_encode_utf8(none);
    let bytes = vstd::utf8::encode_utf8(none);
    assert(bytes =~= Seq::<u8>::empty());
    assert(crate::encoding::percent_encoded(none) =~= none);
    if text.len() == 0 {
        assert(text =~= none);
    }
    if crate::encoding::percent_encoded(text).len() == 0 {
        assert(crate::encoding::percent_encoded(text) =~= none);
    }
}

/// An SSH address without a machine is refused.
pub proof fn law_ssh_urls_need_a_machine(
    request: OpenModel,
    url: UrlModel,
    settings: Seq<SettingModel>,
)
    requires
        url.host is None,
    ensures
        request_side::with_ssh(request, url, settings) == Err::<OpenModel, OpenFault>(
            OpenFault::MissingHost(url.text),
        ),
{
}

/// A clone URL asks for the repository that the first `repo` in its form data names. An empty one is
/// refused.
pub proof fn law_clone_urls_name_the_repository(
    request: OpenModel,
    query: Seq<char>,
    at: int,
    skill_prefix: Seq<char>,
    answer: AnswerModel,
    settings: Seq<SettingModel>,
)
    requires
        !skill_prefix.is_prefix_of("zed://git/clone/?"@ + query),
        0 <= at < crate::encoding::form_pairs(query).len(),
        crate::encoding::form_pairs(query)[at].0 == "repo"@,
        forall|j: int| 0 <= j < at ==> (#[trigger] crate::encoding::form_pairs(query)[j]).0 != "repo"@,
    ensures
        ({
            let repo = crate::encoding::form_pairs(query)[at].1;
            taken(request, "zed://git/clone/?"@ + query, skill_prefix, answer, settings) == if repo.len()
                == 0 {
                Err::<OpenModel, OpenFault>(OpenFault::CloneWithoutRepo)
            } else {
                Ok(OpenModel { kind: Some(KindModel::GitClone { repo_url: repo }), ..request })
            }
        }),
{
    reveal_strlit("zed://git/clone");
    reveal_strlit("zed://git/clone/?");
    reveal_strlit("/");
    reveal_strlit("?");
    let url = "zed://git/clone/?"@ + query;
    lemma_own_scheme(url);
    lemma_not_a_skill(url, skill_prefix);
    assert(url =~= "zed://git/clone"@ + ("/"@ + ("?"@ + query)));
    crate::text_laws::law_prefix_and_rest_make_up_the_text(
        "zed://git/clone"@,
        "/"@ + ("?"@ + query),
    );
    crate::text_laws::law_prefix_and_rest_make_up_the_text("/"@, "?"@ + query);
    crate::text_laws::law_prefix_and_rest_make_up_the_text("?"@, query);
    lemma_first_pair(crate::encoding::form_pairs(query), "repo"@, at);
}

/// A commit URL asks for the commit in front of its form data, in the repository that the first
/// `repo` there names, which is opened. An empty commit or an empty `repo` is refused.
pub proof fn law_commit_urls_name_commit_and_repository(
    request: OpenModel,
    sha: Seq<char>,
    query: Seq<char>,
    at: int,
    skill_prefix: Seq<char>,
    answer: AnswerModel,
    settings: Seq<SettingModel>,
)
    requires
        !skill_prefix.is_prefix_of("zed://git/commit/"@ + (sha + seq!['?'] + query)),
        !sha.contains('?'),
        0 <= at < crate::encoding::form_pairs(query).len(),
        crate::encoding::form_pairs(query)[at].0 == "repo"@,
        forall|j: int| 0 <= j < at ==> (#[trigger] crate::encoding::form_pairs(query)[j]).0 != "repo"@,
    ensures
        ({
            let repo = crate::encoding::form_pairs(query)[at].1;
            taken(
                request,
                "zed://git/commit/"@ + (sha + seq!['?'] + query),
                skill_prefix,
                answer,
                settings,
            ) == if sha.len() == 0 {
                Err::<OpenModel, OpenFault>(OpenFault::CommitWithoutSha)
            } else if repo.len() == 0 {
                Err::<OpenModel, OpenFault>(OpenFault::CommitWithoutRepo)
            } else {
                Ok(
                    OpenModel {
                        kind: Some(KindModel::GitCommit { sha }),
                        open_paths: request.open_paths.push(repo),
                        ..request
                    },
                )
            }
        }),
{
    reveal_strlit("zed://git/commit/");
    reveal_strlit("?");
    let rest = sha + seq!['?'] + query;
    let url = "zed://git/commit/"@ + rest;
    lemma_own_scheme(url);
    lemma_not_a_skill(url, skill_prefix);
    crate::text_laws::law_prefix_and_rest_make_up_the_text("zed://git/commit/"@, rest);
    assert("?"@ =~= seq!['?']);
    crate::text_laws::law_parting_at_a_character(sha, '?', query);
    lemma_first_pair(crate::encoding::form_pairs(query), "repo"@, at);
}

/// A URL of no known kind is asked about. A channel is joined, its notes are opened behind those
/// that are there, and what is no link is passed over.
pub proof fn law_other_urls_follow_the_link(
    request: OpenModel,
    url: Seq<char>,
    channel: u64,
    heading: Option<Seq<char>>,
    skill_prefix: Seq<char>,
    settings: Seq<SettingModel>,
)
    requires
        !skill_prefix.is_prefix_of(url),
        url.len() > 0,
        !"zed"@.is_prefix_of(url),
        !"file://"@.is_prefix_of(url),
        !"ssh://"@.is_prefix_of(url),
    ensures
        asked(url, skill_prefix) == QuestionModel::ResolveLink,
        taken(
            request,
            url,
            skill_prefix,
            AnswerModel::Link { link: Some(LinkModel::Channel { channel }) },
            settings,
        ) == Ok::<OpenModel, OpenFault>(OpenModel { join_channel: Some(channel), ..request }),
        taken(
            request,
            url,
            skill_prefix,
            AnswerModel::Link { link: Some(LinkModel::ChannelNotes { channel, heading }) },
            settings,
        ) == Ok::<OpenModel, OpenFault>(
            OpenModel {
                open_channel_notes: request.open_channel_notes.push((channel, heading)),
                ..request
            },
        ),
        taken(request, url, skill_prefix, AnswerModel::Link { link: None }, settings) == Ok::<
            OpenModel,
            OpenFault,
        >(request),
{
    reveal_strlit("zed-cli://");
    reveal_strlit("zed-dock-action://");
    reveal_strlit("file://");
    reveal_strlit("zed://file");
    reveal_strlit("zed://ssh");
    reveal_strlit("zed://extension/");
    reveal_strlit("zed://agent");
    reveal_strlit("zed://");
    reveal_strlit("zed://open");
    reveal_strlit("zed://open/");
    reveal_strlit("zed://schemas/");
    reveal_strlit("zed://settings");
    reveal_strlit("zed://settings/");
    reveal_strlit("zed://git/clone");
    reveal_strlit("zed://git/commit/");
    reveal_strlit("ssh://");
    reveal_strlit("zed");
    lemma_not_a_skill(url, skill_prefix);
    lemma_not_a_skill(url, "file://"@);
    lemma_not_a_skill(url, "ssh://"@);
    let zed = "zed"@;
    if url.len() >= 3 && url[0] == 'z' && url[1] == 'e' && url[2] == 'd' {
        assert(zed =~= url.subrange(0, 3));
        assert(false);
    }
    let i: int = if url.len() < 1 || url[0] != 'z' {
        0
    } else if url.len() < 2 || url[1] != 'e' {
        1
    } else {
        2
    };
    crate::text_laws::lemma_no_prefix(url, "zed-cli://"@, i);
    crate::text_laws::lemma_no_prefix(url, "zed-dock-action://"@, i);
    crate::text_laws::lemma_no_prefix(url, "zed://file"@, i);
    crate::text_laws::lemma_no_prefix(url, "zed://ssh"@, i);
    crate::text_laws::lemma_no_prefix(url, "zed://extension/"@, i);
    crate::text_laws::lemma_no_prefix(url, "zed://agent"@, i);
    crate::text_laws::lemma_no_prefix(url, "zed://schemas/"@, i);
    crate::text_laws::lemma_no_prefix(url, "zed://settings/"@, i);
    crate::text_laws::lemma_no_prefix(url, "zed://git/clone"@, i);
    crate::text_laws::lemma_no_prefix(url, "zed://git/commit/"@, i);
    assert("zed://"@[i] == zed[i] && "zed://open"@[i] == zed[i] && "zed://open/"@[i] == zed[i]
        && "zed://settings"@[i] == zed[i] && "zed://settings/"@[i] == zed[i]);
}

/// Taking in a URL leaves alone what was asked for besides: what to compare and how to open it, and
/// the paths and notes that are there. Nothing takes back a kind or a channel.
pub proof fn law_urls_leave_the_rest_alone(
    request: OpenModel,
    url: Seq<char>,
    skill_prefix: Seq<char>,
    answer: AnswerModel,
    settings: Seq<SettingModel>,
)
    ensures
        taken(request, url, skill_prefix, answer, settings) matches Ok(next) ==> {
            &&& next.diff_paths == request.diff_paths
            &&& next.diff_all == request.diff_all
            &&& next.dev_container == request.dev_container
            &&& next.open_behavior == request.open_behavior
            &&& request.open_paths.is_prefix_of(next.open_paths)
            &&& next.open_paths.len() <= request.open_paths.len() + 1
            &&& request.open_channel_notes.is_prefix_of(next.open_channel_notes)
            &&& request.kind is Some ==> next.kind is Some
            &&& request.join_channel is Some ==> next.join_channel is Some
            &&& request.remote_connection is Some ==> next.remote_connection
                == request.remote_connection
        },
{
}

/// A request begins with what is to be compared and how it is to be opened, and with nothing else
/// but the distribution, where one is named: alone, or behind a user and an at sign.
pub proof fn law_requests_begin_with_what_is_given(
    diff_paths: Seq<(Seq<char>, Seq<char>)>,
    diff_all: bool,
    dev_container: bool,
    user: Seq<char>,
    distro: Seq<char>,
    open_behavior: Option<OpenBehavior>,
)
    ensures
        request_side::begun(diff_paths, diff_all, dev_container, None, open_behavior) == Ok::<
            OpenModel,
            OpenFault,
        >(
            OpenModel {
                kind: None,
                open_paths: Seq::empty(),
                diff_paths,
                diff_all,
                dev_container,
                open_channel_notes: Seq::empty(),
                join_channel: None,
                remote_connection: None,
                open_behavior,
            },
        ),
        !distro.contains('@') ==> (request_side::begun(
            diff_paths,
            diff_all,
            dev_container,
            Some(distro),
            open_behavior,
        ) matches Ok(begun) && begun.remote_connection == Some(
            RemoteModel::Wsl(WslModel { distro_name: distro, user: None }),
        ) && begun.open_paths.len() == 0 && begun.diff_paths == diff_paths && begun.diff_all == diff_all
            && begun.dev_container == dev_container && begun.open_behavior == open_behavior
            && begun.kind is None && begun.join_channel is None && begun.open_channel_notes.len()
            == 0),
        !user.contains('@') && user.len() > 0 ==> (request_side::begun(
            diff_paths,
            diff_all,
            dev_container,
            Some(user + seq!['@'] + distro),
            open_behavior,
        ) matches Ok(begun) && begun.remote_connection == Some(
            RemoteModel::Wsl(WslModel { distro_name: distro, user: Some(user) }),
        ) && begun.open_paths.len() == 0 && begun.diff_paths == diff_paths && begun.diff_all == diff_all
            && begun.dev_container == dev_container && begun.open_behavior == open_behavior
            && begun.kind is None && begun.join_channel is None && begun.open_channel_notes.len()
            == 0),
        request_side::begun(
            diff_paths,
            diff_all,
            dev_container,
            Some(seq!['@'] + distro),
            open_behavior,
        ) == Err::<OpenModel, OpenFault>(OpenFault::EmptyWslUser),
{
    reveal_strlit("@");
    assert("@"@ =~= seq!['@']);
    if !distro.contains('@') {
        crate::text_laws::law_parting_at_the_first(distro, "@"@);
        match crate::text::parted_once(distro, "@"@) {
            Some((left, right)) => {
                assert((left + "@"@ + right)[left.len() as int] == '@');
                assert(distro[left.len() as int] == '@');
            },
            None => {},
        }
    }
    if !user.contains('@') {
        crate::text_laws::law_parting_at_a_character(user, '@', distro);
    }
    let none = Seq::<char>::empty();
    crate::text_laws::law_parting_at_a_character(none, '@', distro);
    assert(none + seq!['@'] + distro =~= seq!['@'] + distro);
}

/// URLs are taken in one after another: a list of file URLs opens their paths in the order of the
/// URLs, and changes nothing else.
pub proof fn law_file_urls_open_in_order(
    request: OpenModel,
    paths: Seq<Seq<char>>,
    urls: Seq<Seq<char>>,
    answers: Seq<AnswerModel>,
    settings: Seq<SettingModel>,
    skill_prefix: Seq<char>,
)
    requires
        urls.len() == paths.len(),
        forall|i: int|
            0 <= i < urls.len() ==> #[trigger] urls[i] == "file://"@ + crate::encoding::percent_encoded(
                paths[i],
            ),
    ensures
        request_side::with_urls(
            request,
            urls,
            answers,
            settings,
            skill_prefix,
            urls.len() as int,
        ) == Ok::<OpenModel, OpenFault>(
            OpenModel { open_paths: request.open_paths + paths, ..request },
        ),
{
    lemma_file_urls(request, paths, urls, answers, settings, skill_prefix, urls.len() as int);
    assert(paths.take(urls.len() as int) =~= paths);
}

proof fn lemma_file_urls(
    request: OpenModel,
    paths: Seq<Seq<char>>,
    urls: Seq<Seq<char>>,
    answers: Seq<AnswerModel>,
    settings: Seq<SettingModel>,
    skill_prefix: Seq<char>,
    count: int,
)
    requires
        0 <= count <= urls.len(),
        urls.len() == paths.len(),
        forall|i: int|
            0 <= i < urls.len() ==> #[trigger] urls[i] == "file://"@ + crate::encoding::percent_encoded(
                paths[i],
            ),
    ensures
        request_side::with_urls(request, urls, answers, settings, skill_prefix, count) == Ok::<
            OpenModel,
            OpenFault,
        >(OpenModel { open_paths: request.open_paths + paths.take(count), ..request }),
    decreases count,
{
    if count > 0 {
        lemma_file_urls(request, paths, urls, answers, settings, skill_prefix, count - 1);
        let before = OpenModel { open_paths: request.open_paths + paths.take(count - 1), ..request };
        assert(urls[count - 1] == "file://"@ + crate::encoding::percent_encoded(paths[count - 1]));
        law_file_urls_open_the_path(
            before,
            paths[count - 1],
            skill_prefix,
            answers[count - 1],
            settings,
        );
        assert((request.open_paths + paths.take(count - 1)).push(paths[count - 1])
            =~= request.open_paths + paths.take(count));
    } else {
        assert(request.open_paths + paths.take(0) =~= request.open_paths);
    }
}

/// A request is refused where one of its URLs is, in the words of the first.
pub proof fn law_one_bad_url_refuses_the_request(
    request: OpenModel,
    urls: Seq<Seq<char>>,
    answers: Seq<AnswerModel>,
    settings: Seq<SettingModel>,
    skill_prefix: Seq<char>,
    bad: int,
    before: OpenModel,
    fault: OpenFault,
    count: int,
)
    requires
        0 <= bad < count,
        request_side::with_urls(request, urls, answers, settings, skill_prefix, bad) == Ok::<
            OpenModel,
            OpenFault,
        >(before),
        taken(before, urls[bad], skill_prefix, answers[bad], settings) == Err::<OpenModel, OpenFault>(
            fault,
        ),
    ensures
        request_side::with_urls(request, urls, answers, settings, skill_prefix, count) == Err::<
            OpenModel,
            OpenFault,
        >(fault),
    decreases count,
{
    if bad < count - 1 {
        law_one_bad_url_refuses_the_request(
            request,
            urls,
            answers,
            settings,
            skill_prefix,
            bad,
            before,
            fault,
            count - 1,
        );
    }
}

/// An address with its path behind a colon stands for the URL with that path: below the root, or
/// below the home directory where it starts with a tilde.
pub proof fn law_paths_behind_a_colon(host: Seq<char>, path: Seq<char>)
    requires
        host.len() > 0,
        !host.contains(':'),
        !host.contains('@'),
        host[0] != '[',
        !path.contains(':'),
        !path.contains('@'),
    ensures
        request_side::normalized_ssh("ssh://"@ + (host + ":/"@ + path)) == Ok::<Seq<char>, OpenFault>(
            "ssh://"@ + host + ("/"@ + path),
        ),
        request_side::normalized_ssh("ssh://"@ + (host + ":~/"@ + path)) == Ok::<
            Seq<char>,
            OpenFault,
        >("ssh://"@ + host + ("/~/"@ + path)),
{
    reveal_strlit("ssh://");
    reveal_strlit(":/");
    reveal_strlit(":~/");
    reveal_strlit("@");
    reveal_strlit("[");
    reveal_strlit(":");
    let rooted = host + ":/"@ + path;
    let home = host + ":~/"@ + path;
    crate::text_laws::law_prefix_and_rest_make_up_the_text("ssh://"@, rooted);
    crate::text_laws::law_prefix_and_rest_make_up_the_text("ssh://"@, home);
    assert forall|j: int| j != host.len() implies !#[trigger] crate::text::occurs_at(
        rooted,
        ":/"@,
        j,
    ) by {
        if crate::text::occurs_at(rooted, ":/"@, j) {
            assert(rooted.subrange(j, j + 2)[0] == ':');
            if j < host.len() {
                assert(host[j] == ':');
            } else if j >= host.len() + 2 {
                assert(path[j - host.len() - 2] == ':');
            }
        }
    }
    assert forall|j: int| !#[trigger] crate::text::occurs_at(rooted, ":~/"@, j) by {
        if crate::text::occurs_at(rooted, ":~/"@, j) {
            assert(rooted.subrange(j, j + 3)[0] == ':');
            assert(rooted.subrange(j, j + 3)[1] == '~');
            if j < host.len() {
                assert(host[j] == ':');
            } else if j >= host.len() + 2 {
                assert(path[j - host.len() - 2] == ':');
            }
        }
    }
    assert forall|j: int| j != host.len() implies !#[trigger] crate::text::occurs_at(
        home,
        ":~/"@,
        j,
    ) by {
        if crate::text::occurs_at(home, ":~/"@, j) {
            assert(home.subrange(j, j + 3)[0] == ':');
            if j < host.len() {
                assert(host[j] == ':');
            } else if j >= host.len() + 3 {
                assert(path[j - host.len() - 3] == ':');
            }
        }
    }
    crate::text_laws::lemma_last_upto(rooted, ":~/"@, rooted.len() as int);
    crate::text_laws::law_parting_finds_the_last(host, ":/"@, path);
    crate::text_laws::law_parting_finds_the_last(host, ":~/"@, path);
    assert forall|j: int| !#[trigger] crate::text::occurs_at(host, "@"@, j) by {
        if crate::text::occurs_at(host, "@"@, j) {
            assert(host.subrange(j, j + 1)[0] == '@');
            assert(host[j] == '@');
        }
    }
    crate::text_laws::lemma_last_upto(host, "@"@, host.len() as int);
    crate::text_laws::lemma_no_prefix(host, "["@, 0);
    assert forall|j: int| !#[trigger] crate::text::occurs_at(host, ":"@, j) by {
        if crate::text::occurs_at(host, ":"@, j) {
            assert(host.subrange(j, j + 1)[0] == ':');
            assert(host[j] == ':');
        }
    }
}

} // verus!
