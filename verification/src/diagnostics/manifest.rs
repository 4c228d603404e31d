//! The manifests that let the browser start the native host.

use crate::diagnostics::{NATIVE_HOST_NAME, SYSTEM_NATIVE_HOST_PATH};
use crate::json;
use crate::json::{read_member, write_object, JsonMember, JsonText, MemberView};
use crate::text;
use crate::text::{char_len, chars_of, same_text, starts_with, string_between};
use vstd::prelude::*;

verus! {

/// What is known of an existing file.
#[derive(Debug, Clone, Copy, PartialEq, Eq, Structural)]
pub struct FileMode {
    pub is_file: bool,
    pub mode: u32,
}

impl FileMode {
    /// A regular file that someone may execute.
    pub open spec fn executable(self) -> bool {
        self.is_file && self.mode & 0o111 != 0
    }
}

/// Whether there is a file that may be executed.
pub fn is_file_executable(metadata: Option<FileMode>) -> (executable: bool)
    ensures
        executable == (metadata matches Some(found) && found.executable()),
{
    match metadata {
        Some(found) => found.is_file && found.mode & 0o111 != 0,
        None => false,
    }
}

/// What is wrong with a manifest, or with writing one.
#[derive(Debug, PartialEq, Eq)]
pub enum ManifestError {
    BadExtensionId(String),
    BadIdToSave(String),
    BadJson(String),
    WrongName(String),
    WrongType(String),
    NoPath,
    MissingFile(String),
    NotExecutable(String),
    NoExtensionId,
    HostMissing(String),
    NoHomeDirectory,
    NotWritten(String),
}

#[verifier::ext_equal]
pub enum ManifestProblem {
    BadExtensionId(Seq<char>),
    BadIdToSave(Seq<char>),
    BadJson(Seq<char>),
    WrongName(Seq<char>),
    WrongType(Seq<char>),
    NoPath,
    MissingFile(Seq<char>),
    NotExecutable(Seq<char>),
    NoExtensionId,
    HostMissing(Seq<char>),
    NoHomeDirectory,
    NotWritten(Seq<char>),
}

impl View for ManifestError {
    type V = ManifestProblem;

    open spec fn view(&self) -> ManifestProblem {
        match self {
            ManifestError::BadExtensionId(id) => ManifestProblem::BadExtensionId(id@),
            ManifestError::BadIdToSave(id) => ManifestProblem::BadIdToSave(id@),
            ManifestError::BadJson(reason) => ManifestProblem::BadJson(reason@),
            ManifestError::WrongName(name) => ManifestProblem::WrongName(name@),
            ManifestError::WrongType(kind) => ManifestProblem::WrongType(kind@),
            ManifestError::NoPath => ManifestProblem::NoPath,
            ManifestError::MissingFile(path) => ManifestProblem::MissingFile(path@),
            ManifestError::NotExecutable(path) => ManifestProblem::NotExecutable(path@),
            ManifestError::NoExtensionId => ManifestProblem::NoExtensionId,
            ManifestError::HostMissing(path) => ManifestProblem::HostMissing(path@),
            ManifestError::NoHomeDirectory => ManifestProblem::NoHomeDirectory,
            ManifestError::NotWritten(reason) => ManifestProblem::NotWritten(reason@),
        }
    }
}

impl ManifestProblem {
    pub open spec fn text(self) -> Seq<char> {
        match self {
            ManifestProblem::BadExtensionId(id) => "Неверный ID Chrome-расширения: '"@ + id
                + "'. Должно быть 32 символа a-p."@,
            ManifestProblem::BadIdToSave(id) => "Неверный ID расширения: '"@ + id
                + "'. Должен состоять из 32 символов a-p."@,
            ManifestProblem::BadJson(reason) => "Некорректный JSON в манифесте: "@ + reason,
            ManifestProblem::WrongName(name) => "Имя манифеста '"@ + name
                + "' не совпадает с 'io.github.mootxed.kitsupin.native'"@,
            ManifestProblem::WrongType(kind) => "Тип манифеста '"@ + kind
                + "' должен быть 'stdio'"@,
            ManifestProblem::NoPath => "Манифест не содержит пути path"@,
            ManifestProblem::MissingFile(path) => "Указанный в манифесте путь '"@ + path
                + "' не существует"@,
            ManifestProblem::NotExecutable(path) => "Указанный в манифесте файл '"@ + path
                + "' не является исполняемым"@,
            ManifestProblem::NoExtensionId =>
                "Не найден валидный ID расширения в allowed_origins"@,
            ManifestProblem::HostMissing(path) => "Файл хоста '\""@ + path
                + "\"' не найден. Сначала установите KitsuPin."@,
            ManifestProblem::NoHomeDirectory =>
                "Не удалось определить домашний каталог пользователя"@,
            ManifestProblem::NotWritten(reason) => reason,
        }
    }
}

fn around(head: &str, middle: &str, tail: &str) -> (text: String)
    ensures
        text@ == head@ + middle@ + tail@,
{
    let mut text = head.to_owned();
    text.push_str(middle);
    text.push_str(tail);
    text
}

impl ManifestError {
    pub fn message(&self) -> (message: String)
        ensures
            message@ == self@.text(),
    {
        match self {
            ManifestError::BadExtensionId(id) => around(
                "Неверный ID Chrome-расширения: '",
                id.as_str(),
                "'. Должно быть 32 символа a-p.",
            ),
            ManifestError::BadIdToSave(id) => around(
                "Неверный ID расширения: '",
                id.as_str(),
                "'. Должен состоять из 32 символов a-p.",
            ),
            ManifestError::BadJson(reason) => {
                let mut message = "Некорректный JSON в манифесте: ".to_owned();
                message.push_str(reason.as_str());
                message
            },
            ManifestError::WrongName(name) => around(
                "Имя манифеста '",
                name.as_str(),
                "' не совпадает с 'io.github.mootxed.kitsupin.native'",
            ),
            ManifestError::WrongType(kind) => around(
                "Тип манифеста '",
                kind.as_str(),
                "' должен быть 'stdio'",
            ),
            ManifestError::NoPath => "Манифест не содержит пути path".to_owned(),
            ManifestError::MissingFile(path) => around(
                "Указанный в манифесте путь '",
                path.as_str(),
                "' не существует",
            ),
            ManifestError::NotExecutable(path) => around(
                "Указанный в манифесте файл '",
                path.as_str(),
                "' не является исполняемым",
            ),
            ManifestError::NoExtensionId =>
                "Не найден валидный ID расширения в allowed_origins".to_owned(),
            ManifestError::HostMissing(path) => around(
                "Файл хоста '\"",
                path.as_str(),
                "\"' не найден. Сначала установите KitsuPin.",
            ),
            ManifestError::NoHomeDirectory =>
                "Не удалось определить домашний каталог пользователя".to_owned(),
            ManifestError::NotWritten(reason) => reason.clone(),
        }
    }
}

/// The identifier of an extension: thirty-two letters from `a` to `p`.
pub open spec fn is_extension_id(id: Seq<char>) -> bool {
    id.len() == 32 && forall|i: int| 0 <= i < id.len() ==> 'a' <= #[trigger] id[i] <= 'p'
}

pub fn validate_extension_id(id: &str) -> (valid: bool)
    ensures
        valid == is_extension_id(id@),
{
    let chars = chars_of(id);
    if chars.len() != 32 {
        return false;
    }
    let mut i: usize = 0;
    while i < chars.len()
        invariant
            i <= chars@.len(),
            chars@ == id@,
            chars@.len() == 32,
            forall|k: int| 0 <= k < i ==> 'a' <= #[trigger] id@[k] <= 'p',
        decreases chars@.len() - i,
    {
        let c: char = chars[i];
        if c < 'a' || c > 'p' {
            assert(!('a' <= id@[i as int] <= 'p'));
            return false;
        }
        i += 1;
    }
    true
}

/// How an extension is named among the origins that may start the host.
pub open spec fn origin_of(id: Seq<char>) -> Seq<char> {
    "chrome-extension://"@ + id + "/"@
}

/// The members of a manifest.
pub open spec fn manifest_members(host_path: Seq<char>, extension_id: Seq<char>) -> Seq<
    (Seq<char>, MemberView),
> {
    seq![
        ("name"@, MemberView::Text(NATIVE_HOST_NAME@)),
        ("description"@, MemberView::Text("KitsuPin Native Messaging Host"@)),
        ("path"@, MemberView::Text(host_path)),
        ("type"@, MemberView::Text("stdio"@)),
        ("allowed_origins"@, MemberView::Texts(seq![Some(origin_of(extension_id))])),
    ]
}

/// The manifest that lets one extension start the host.
pub fn generate_native_manifest(host_path: &str, extension_id: &str) -> (result: Result<
    String,
    ManifestError,
>)
    ensures
        match result {
            Ok(document) => is_extension_id(extension_id@) && document@ == json::json_object(
                manifest_members(host_path@, extension_id@),
            ) && json::gives_back(
                Some(document@),
                manifest_members(host_path@, extension_id@),
            ),
            Err(error) => !is_extension_id(extension_id@) && error@
                == ManifestProblem::BadExtensionId(extension_id@),
        },
{
    if !validate_extension_id(extension_id) {
        return Err(ManifestError::BadExtensionId(extension_id.to_owned()));
    }
    let origin = around("chrome-extension://", extension_id, "/");
    let mut origins: Vec<String> = Vec::new();
    origins.push(origin);
    let mut members: Vec<(String, JsonText)> = Vec::new();
    members.push(("name".to_owned(), JsonText::Text(NATIVE_HOST_NAME.to_owned())));
    members.push(
        (
            "description".to_owned(),
            JsonText::Text("KitsuPin Native Messaging Host".to_owned()),
        ),
    );
    members.push(("path".to_owned(), JsonText::Text(host_path.to_owned())));
    members.push(("type".to_owned(), JsonText::Text("stdio".to_owned())));
    members.push(("allowed_origins".to_owned(), JsonText::Texts(origins)));
    proof {
        assert(origins@.map_values(|item: String| Some(item@)) =~= seq![
            Some(origin_of(extension_id@)),
        ]);
        assert(json::members_of(members@) =~= manifest_members(host_path@, extension_id@));
    }
    match write_object(&members) {
        Some(document) => Ok(document),
        None => Err(ManifestError::BadExtensionId(extension_id.to_owned())),
    }
}

/// A member that is a text; any other counts as the empty text.
pub open spec fn member_text(member: Option<MemberView>) -> Seq<char> {
    match member {
        Some(MemberView::Text(text)) => text,
        _ => Seq::empty(),
    }
}

fn text_of_member(member: Option<JsonMember>) -> (text: String)
    ensures
        text@ == member_text(
            match member {
                Some(member) => Some(member@),
                None => None,
            },
        ),
{
    match member {
        Some(JsonMember::Text(text)) => text,
        _ => {
            let nothing = String::new();
            assert(nothing@ =~= Seq::empty());
            nothing
        },
    }
}

/// The extension that an origin names, if it names one.
pub open spec fn origin_id(item: Option<Seq<char>>) -> Option<Seq<char>> {
    let head = "chrome-extension://"@.len() as int;
    match item {
        Some(origin) if origin.len() == head + 33 && origin.take(head) == "chrome-extension://"@
            && origin.last() == '/' && is_extension_id(
            origin.subrange(head, head + 32),
        ) => Some(origin.subrange(head, head + 32)),
        _ => None,
    }
}

/// The first extension that a list of origins names.
pub open spec fn first_extension(items: Seq<Option<Seq<char>>>) -> Option<Seq<char>>
    decreases items.len(),
{
    if items.len() == 0 {
        None
    } else {
        match origin_id(items[0]) {
            Some(id) => Some(id),
            None => first_extension(items.skip(1)),
        }
    }
}

fn id_in_origin(item: &Option<String>) -> (id: Option<String>)
    ensures
        text::text_of(id) == origin_id(json::item_view(*item)),
{
    let origin = match item {
        Some(origin) => origin,
        None => return None,
    };
    let head = char_len("chrome-extension://");
    let chars = chars_of(origin.as_str());
    let total = chars.len();
    if !starts_with(origin.as_str(), "chrome-extension://") || total <= head || chars[total - 1]
        != '/' {
        return None;
    }
    let id = string_between(&chars, head, total - 1);
    if validate_extension_id(id.as_str()) {
        assert(origin@.len() == head + 33);
        Some(id)
    } else {
        assert(origin@.len() == head + 33 ==> origin@.subrange(head as int, head + 32) == id@);
        None
    }
}

/// The first extension in a list.
fn extension_in(items: &Vec<Option<String>>) -> (id: Option<String>)
    ensures
        text::text_of(id) == first_extension(
            items@.map_values(|item: Option<String>| json::item_view(item)),
        ),
{
    let ghost views = items@.map_values(|item: Option<String>| json::item_view(item));
    let mut i: usize = 0;
    proof {
        assert(views.skip(0) =~= views);
    }
    while i < items.len()
        invariant
            i <= items@.len(),
            views == items@.map_values(|item: Option<String>| json::item_view(item)),
            first_extension(views) == first_extension(views.skip(i as int)),
        decreases items@.len() - i,
    {
        proof {
            assert(views.skip(i as int)[0] == json::item_view(items@[i as int]));
            assert(views.skip(i as int).skip(1) =~= views.skip(i + 1));
        }
        match id_in_origin(&items[i]) {
            Some(id) => return Some(id),
            None => {},
        }
        i += 1;
    }
    None
}

/// The state of the file that the manifest names is asked for.
pub open spec fn reaches_file(
    name: Result<Option<MemberView>, Seq<char>>,
    kind: Result<Option<MemberView>, Seq<char>>,
    path: Result<Option<MemberView>, Seq<char>>,
) -> bool {
    &&& name is Ok && member_text(name->Ok_0) == NATIVE_HOST_NAME@
    &&& kind is Ok && member_text(kind->Ok_0) == "stdio"@
    &&& path is Ok && member_text(path->Ok_0).len() > 0
}

/// The extension that a manifest with these members lets in, given the state of the file it
/// names; or what is wrong with it.
pub open spec fn verdict(
    name: Result<Option<MemberView>, Seq<char>>,
    kind: Result<Option<MemberView>, Seq<char>>,
    path: Result<Option<MemberView>, Seq<char>>,
    origins: Result<Option<MemberView>, Seq<char>>,
    file: Option<FileMode>,
) -> Result<Seq<char>, ManifestProblem> {
    match (name, kind, path, origins) {
        (Err(reason), _, _, _) => Err(ManifestProblem::BadJson(reason)),
        (Ok(name), _, _, _) if member_text(name) != NATIVE_HOST_NAME@ => Err(
            ManifestProblem::WrongName(member_text(name)),
        ),
        (_, Err(reason), _, _) => Err(ManifestProblem::BadJson(reason)),
        (_, Ok(kind), _, _) if member_text(kind) != "stdio"@ => Err(
            ManifestProblem::WrongType(member_text(kind)),
        ),
        (_, _, Err(reason), _) => Err(ManifestProblem::BadJson(reason)),
        (_, _, Ok(path), _) if member_text(path).len() == 0 => Err(ManifestProblem::NoPath),
        (_, _, Ok(path), _) if file is None => Err(
            ManifestProblem::MissingFile(member_text(path)),
        ),
        (_, _, Ok(path), _) if !(file->0).executable() => Err(
            ManifestProblem::NotExecutable(member_text(path)),
        ),
        (_, _, _, Err(reason)) => Err(ManifestProblem::BadJson(reason)),
        (_, _, _, Ok(Some(MemberView::Texts(items)))) => match first_extension(items) {
            Some(id) => Ok(id),
            None => Err(ManifestProblem::NoExtensionId),
        },
        _ => Err(ManifestProblem::NoExtensionId),
    }
}

pub open spec fn outcome_view(result: Result<String, ManifestError>) -> Result<
    Seq<char>,
    ManifestProblem,
> {
    match result {
        Ok(id) => Ok(id@),
        Err(error) => Err(error@),
    }
}

/// What checking the members of a manifest does and returns; `probe` tells the state of the file
/// that the manifest names.
pub open spec fn members_checked<F: FnOnce(&str) -> Option<FileMode>>(
    name: Result<Option<MemberView>, Seq<char>>,
    kind: Result<Option<MemberView>, Seq<char>>,
    path: Result<Option<MemberView>, Seq<char>>,
    origins: Result<Option<MemberView>, Seq<char>>,
    probe: F,
    result: Result<String, ManifestError>,
) -> bool {
    exists|file: Option<FileMode>|
        {
            &&& outcome_view(result) == #[trigger] verdict(name, kind, path, origins, file)
            &&& reaches_file(name, kind, path) ==> exists|target: &str|
                {
                    &&& #[trigger] call_ensures(probe, (target,), file)
                    &&& target@ == member_text(path->Ok_0)
                }
        }
}

/// Checks the members of a manifest.
pub fn check_members<F: FnOnce(&str) -> Option<FileMode>>(
    name: Result<Option<JsonMember>, String>,
    kind: Result<Option<JsonMember>, String>,
    path: Result<Option<JsonMember>, String>,
    origins: Result<Option<JsonMember>, String>,
    probe: F,
) -> (result: Result<String, ManifestError>)
    requires
        forall|target: &str| #[trigger] call_requires(probe, (target,)),
    ensures
        members_checked(
            json::member_view(name),
            json::member_view(kind),
            json::member_view(path),
            json::member_view(origins),
            probe,
            result,
        ),
{
    let ghost (n, k, p, o) = (
        json::member_view(name),
        json::member_view(kind),
        json::member_view(path),
        json::member_view(origins),
    );
    let ghost unasked = verdict(n, k, p, o, None);
    let name = match name {
        Ok(member) => text_of_member(member),
        Err(reason) => return Err(ManifestError::BadJson(reason)),
    };
    if !same_text(name.as_str(), NATIVE_HOST_NAME) {
        return Err(ManifestError::WrongName(name));
    }
    let kind = match kind {
        Ok(member) => text_of_member(member),
        Err(reason) => return Err(ManifestError::BadJson(reason)),
    };
    if !same_text(kind.as_str(), "stdio") {
        return Err(ManifestError::WrongType(kind));
    }
    let path = match path {
        Ok(member) => text_of_member(member),
        Err(reason) => return Err(ManifestError::BadJson(reason)),
    };
    if char_len(path.as_str()) == 0 {
        return Err(ManifestError::NoPath);
    }
    let target = path.as_str();
    let file = probe(target);
    let ghost asked = verdict(n, k, p, o, file);
    if file.is_none() {
        return Err(ManifestError::MissingFile(path));
    }
    if !is_file_executable(file) {
        return Err(ManifestError::NotExecutable(path));
    }
    match origins {
        Err(reason) => Err(ManifestError::BadJson(reason)),
        Ok(Some(JsonMember::Texts(items))) => match extension_in(&items) {
            Some(id) => Ok(id),
            None => Err(ManifestError::NoExtensionId),
        },
        Ok(_) => Err(ManifestError::NoExtensionId),
    }
}

/// Checks a manifest and returns the extension that it lets in. `probe` tells the state of the
/// file that the manifest names.
pub fn validate_manifest_content<F: FnOnce(&str) -> Option<FileMode>>(content: &str, probe: F) -> (result:
    Result<String, ManifestError>)
    requires
        forall|target: &str| #[trigger] call_requires(probe, (target,)),
    ensures
        members_checked(
            json::json_member(content@, "name"@),
            json::json_member(content@, "type"@),
            json::json_member(content@, "path"@),
            json::json_member(content@, "allowed_origins"@),
            probe,
            result,
        ),
{
    check_members(
        read_member(content, "name"),
        read_member(content, "type"),
        read_member(content, "path"),
        read_member(content, "allowed_origins"),
        probe,
    )
}

/// A manifest that was written for an extension and an executable host lets that extension in
/// when it is read.
pub proof fn written_manifest_is_valid(
    document: Seq<char>,
    host_path: Seq<char>,
    extension_id: Seq<char>,
    file: FileMode,
)
    requires
        is_extension_id(extension_id),
        host_path.len() > 0,
        json::gives_back(Some(document), manifest_members(host_path, extension_id)),
        file.executable(),
    ensures
        verdict(
            json::json_member(document, "name"@),
            json::json_member(document, "type"@),
            json::json_member(document, "path"@),
            json::json_member(document, "allowed_origins"@),
            Some(file),
        ) == Ok::<Seq<char>, ManifestProblem>(extension_id),
{
    let members = manifest_members(host_path, extension_id);
    reveal_strlit("name");
    reveal_strlit("description");
    reveal_strlit("path");
    reveal_strlit("type");
    reveal_strlit("allowed_origins");
    reveal_strlit("/");
    assert("name"@[0] != "path"@[0]);
    assert("name"@[0] != "type"@[0]);
    assert("path"@[0] != "type"@[0]);
    assert("name"@.len() != "description"@.len());
    assert("name"@.len() != "allowed_origins"@.len());
    assert("description"@.len() != "allowed_origins"@.len());
    assert(json::keys_are_distinct(members));
    assert(members[0].0 == "name"@);
    assert(members[2].0 == "path"@);
    assert(members[3].0 == "type"@);
    assert(members[4].0 == "allowed_origins"@);
    let origin = origin_of(extension_id);
    let head = "chrome-extension://"@.len() as int;
    assert(origin.take(head) =~= "chrome-extension://"@);
    assert(origin.subrange(head, head + 32) =~= extension_id);
    assert(origin_id(Some(origin)) == Some(extension_id));
}

/// The first of the paths at which something was written.
pub open spec fn first_written(paths: Seq<Seq<char>>, written: Seq<Option<Seq<char>>>) -> Option<
    Seq<char>,
>
    decreases paths.len(),
{
    if paths.len() == 0 {
        None
    } else if written[0] is None {
        Some(paths[0])
    } else {
        first_written(paths.skip(1), written.skip(1))
    }
}

/// What came of writing a manifest at each of some paths, where `failures` holds the reason at
/// the paths at which it failed: the first path at which it did not, else the last reason.
pub open spec fn write_outcome(paths: Seq<Seq<char>>, failures: Seq<Option<Seq<char>>>) -> Result<
    Seq<char>,
    ManifestProblem,
> {
    match first_written(paths, failures) {
        Some(path) => Ok(path),
        None => Err(ManifestProblem::NotWritten(failures.last()->0)),
    }
}

pub open spec fn failure_views(failures: Seq<Option<String>>) -> Seq<Option<Seq<char>>> {
    failures.map_values(|failure: Option<String>| json::item_view(failure))
}

/// Why a manifest cannot be written, if so.
pub open spec fn save_problem(
    extension_id: Seq<char>,
    host_path: Option<Seq<char>>,
    paths: Seq<Seq<char>>,
) -> Option<ManifestProblem> {
    if !is_extension_id(extension_id) {
        Some(ManifestProblem::BadIdToSave(extension_id))
    } else if host_path is None {
        Some(ManifestProblem::HostMissing(SYSTEM_NATIVE_HOST_PATH@))
    } else if paths.len() == 0 {
        Some(ManifestProblem::NoHomeDirectory)
    } else {
        None
    }
}

/// At each path the manifest was handed to `write`, which answered with this failure, if any.
pub open spec fn all_attempted<W: Fn(&str, &str) -> Option<String>>(
    write: W,
    paths: Seq<Seq<char>>,
    document: Seq<char>,
    failures: Seq<Option<String>>,
) -> bool {
    &&& failures.len() == paths.len()
    &&& forall|i: int| 0 <= i < paths.len() ==> #[trigger] attempted(
        write,
        paths[i],
        document,
        failures[i],
    )
}

pub open spec fn attempted<W: Fn(&str, &str) -> Option<String>>(
    write: W,
    path: Seq<char>,
    document: Seq<char>,
    failure: Option<String>,
) -> bool {
    exists|target: &str, contents: &str|
        {
            &&& #[trigger] call_ensures(write, (target, contents), failure)
            &&& target@ == path
            &&& contents@ == document
        }
}

/// Writes the manifest for an extension at every path of the user, with `write`, which returns
/// why it failed, if so. `host_path` is the native host that was found. The first path written
/// is returned.
pub fn save_user_extension_manifest<W: Fn(&str, &str) -> Option<String>>(
    extension_id: &str,
    host_path: Option<&str>,
    paths: &Vec<String>,
    write: W,
) -> (result: Result<String, ManifestError>)
    requires
        forall|target: &str, contents: &str| #[trigger] call_requires(write, (target, contents)),
    ensures
        match save_problem(
            extension_id@,
            text::slice_of(host_path),
            text::texts_of(paths@),
        ) {
            Some(problem) => outcome_view(result) == Err::<Seq<char>, ManifestProblem>(problem),
            None => exists|failures: Seq<Option<String>>|
                {
                    &&& #[trigger] all_attempted(
                        write,
                        text::texts_of(paths@),
                        json::json_object(manifest_members(host_path->0@, extension_id@)),
                        failures,
                    )
                    &&& outcome_view(result) == write_outcome(
                        text::texts_of(paths@),
                        failure_views(failures),
                    )
                },
        },
{
    if !validate_extension_id(extension_id) {
        return Err(ManifestError::BadIdToSave(extension_id.to_owned()));
    }
    let host_path = match host_path {
        Some(host_path) => host_path,
        None => return Err(ManifestError::HostMissing(SYSTEM_NATIVE_HOST_PATH.to_owned())),
    };
    if paths.len() == 0 {
        return Err(ManifestError::NoHomeDirectory);
    }
    let document = match generate_native_manifest(host_path, extension_id) {
        Ok(document) => document,
        Err(error) => return Err(error),
    };
    let ghost all = text::texts_of(paths@);
    let mut first: Option<String> = None;
    let mut last: Option<String> = None;
    let ghost mut failures: Seq<Option<String>> = Seq::empty();
    let mut i: usize = 0;
    while i < paths.len()
        invariant
            i <= paths@.len(),
            all == text::texts_of(paths@),
            forall|target: &str, contents: &str| #[trigger]
                call_requires(write, (target, contents)),
            failures.len() == i,
            forall|k: int| 0 <= k < i ==> #[trigger] attempted(
                write,
                all[k],
                document@,
                failures[k],
            ),
            text::text_of(first) == first_written(all.take(i as int), failure_views(failures)),
            first is None && i > 0 ==> failures.last() is Some && text::text_of(last) == Some(
                failures.last()->0@,
            ),
        decreases paths@.len() - i,
    {
        let target = paths[i].as_str();
        let failure = write(target, document.as_str());
        proof {
            assert(all[i as int] == target@);
            assert(attempted(write, all[i as int], document@, failure));
            lemma_first_written(all.take(i as int), failure_views(failures), all[i as int],
                json::item_view(failure));
            assert(all.take(i as int).push(all[i as int]) =~= all.take(i + 1));
            assert(failure_views(failures).push(json::item_view(failure)) =~= failure_views(
                failures.push(failure),
            ));
            failures = failures.push(failure);
        }
        match failure {
            None => {
                if first.is_none() {
                    first = Some(paths[i].clone());
                }
            },
            Some(reason) => {
                last = Some(reason);
            },
        }
        i += 1;
    }
    proof {
        assert(all.take(i as int) =~= all);
        assert(all_attempted(write, all, document@, failures));
    }
    match first {
        Some(path) => Ok(path),
        None => match last {
            Some(reason) => Err(ManifestError::NotWritten(reason)),
            None => Err(ManifestError::NoHomeDirectory),
        },
    }
}

/// One more path changes the first written one only where none was written before.
proof fn lemma_first_written(
    paths: Seq<Seq<char>>,
    written: Seq<Option<Seq<char>>>,
    path: Seq<char>,
    failure: Option<Seq<char>>,
)
    requires
        paths.len() == written.len(),
    ensures
        first_written(paths.push(path), written.push(failure)) == match first_written(
            paths,
            written,
        ) {
            Some(found) => Some(found),
            None => if failure is None {
                Some(path)
            } else {
                None
            },
        },
    decreases paths.len(),
{
    reveal_with_fuel(first_written, 2);
    if paths.len() > 0 {
        lemma_first_written(paths.skip(1), written.skip(1), path, failure);
        assert(paths.push(path).skip(1) =~= paths.skip(1).push(path));
        assert(written.push(failure).skip(1) =~= written.skip(1).push(failure));
    }
}

} // verus!
