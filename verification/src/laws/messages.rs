//! What the user is told where something fails.

use crate::browser_metadata::EventError;
use crate::clipboard::backend;
use crate::clipboard::session::SessionType;
use crate::diagnostics::manifest::ManifestProblem;
use crate::domain::{ContentType, ImageError, PayloadKind};
use crate::persistence::RepositoryError;
use crate::settings::SettingsError;
use crate::text;
use vstd::prelude::*;

verus! {

/// Each refusal of the history says what is wrong, and names the limit where there is one.
pub proof fn refusals_say_what_is_wrong(limit_mb: u64, days: u32, problem: ImageError)
    ensures
        RepositoryError::EmptyContent.text() == "пустой Clipboard не сохраняется"@,
        RepositoryError::ContentTooLarge.text() == "текст превышает лимит 1 МБ"@,
        RepositoryError::BlobStoreUnavailable.text() == "blob-хранилище недоступно"@,
        RepositoryError::Image(problem).text() == problem.text(),
        (RepositoryError::ImageFileTooLarge { limit_mb }).text() == "изображение превышает лимит "@
            + text::decimal(limit_mb as nat) + " МБ"@,
        (RepositoryError::StorageFull { limit_mb }).text()
            == "хранилище изображений достигло лимита "@ + text::decimal(limit_mb as nat) + " МБ"@,
        (RepositoryError::InvalidRetention { days }).text() == "Недопустимый срок хранения: "@
            + text::decimal(days as nat),
        RepositoryError::EncodingFailed.text() == "не удалось закодировать изображение"@,
        RepositoryError::UnsafePath.text() == "небезопасный относительный blob-путь"@,
        RepositoryError::BlobUnwritable.text() == "не удалось сохранить blob"@,
        RepositoryError::BlobUnreadable.text() == "повреждённый image blob"@,
        RepositoryError::BlobTooLarge.text() == "blob превышает лимит просмотра"@,
        RepositoryError::CounterOverflow.text() == "счётчик копирований переполнен"@,
        RepositoryError::ConstraintViolation.text() == "нарушено ограничение таблицы"@,
        RepositoryError::ClipNotFound.text() == "карточка не найдена"@,
        RepositoryError::NotText.text() == "карточка содержит изображение, а не текст"@,
        RepositoryError::MissingBlob.text() == "у изображения отсутствует blob-файл"@,
        RepositoryError::InvalidColor.text() == "цвет должен быть в формате #RRGGBB"@,
        RepositoryError::InvalidCategoryName.text()
            == "название категории должно содержать 1–60 символов"@,
        RepositoryError::DuplicateCategory.text() == "категория с таким названием уже есть"@,
        RepositoryError::SizeOverflow.text() == "размер хранилища переполнен"@,
        RepositoryError::SearchFailed.text() == "поиск не удался"@,
        RepositoryError::DatabaseFailed.text() == "база данных недоступна"@,
{
}

/// Each refusal of an image, of a report and of settings says what is wrong.
pub proof fn other_refusals_say_what_is_wrong(image: ImageError, event: EventError, set: SettingsError)
    ensures
        image.text() == match image {
            ImageError::ZeroSize => "изображение имеет нулевой размер"@,
            ImageError::SidesTooLarge => "размеры изображения слишком велики"@,
            ImageError::SizeOverflow => "размер изображения переполнен"@,
            ImageError::CorruptPixels => "повреждённые RGBA-данные изображения"@,
            ImageError::TooManyBytes => "декодированное изображение превышает 256 МБ"@,
        },
        event.text() == match event {
            EventError::Unsupported => "неподдерживаемое сообщение"@,
            EventError::BadHash => "некорректный hash"@,
            EventError::TooLong => "слишком большое содержимое"@,
            EventError::BadDomain => "некорректный домен"@,
            EventError::BadTimestamp => "некорректное время"@,
        },
        set.text() == match set {
            SettingsError::RetentionOutOfRange => "срок хранения вне диапазона"@,
            SettingsError::WriteFailed => "не удалось записать settings.json"@,
            SettingsError::NoConfigDirectory => "XDG config directory недоступен"@,
        },
{
}

/// Each refusal of a manifest says what is wrong with it.
pub proof fn bad_manifests_are_explained(manifest: ManifestProblem)
    ensures
        manifest.text() == match manifest {
            ManifestProblem::BadExtensionId(id) => "Неверный ID Chrome-расширения: '"@ + id
                + "'. Должно быть 32 символа a-p."@,
            ManifestProblem::BadIdToSave(id) => "Неверный ID расширения: '"@ + id
                + "'. Должен состоять из 32 символов a-p."@,
            ManifestProblem::BadJson(reason) => "Некорректный JSON в манифесте: "@ + reason,
            ManifestProblem::WrongName(name) => "Имя манифеста '"@ + name
                + "' не совпадает с 'io.github.mootxed.kitsupin.native'"@,
            ManifestProblem::WrongType(kind) => "Тип манифеста '"@ + kind
                + "' должен быть 'stdio'"@,
            ManifestProblem::NoPath => "Манифест не содержит пути path"@,
            ManifestProblem::MissingFile(path) => "Указанный в манифесте путь '"@ + path
                + "' не существует"@,
            ManifestProblem::NotExecutable(path) => "Указанный в манифесте файл '"@ + path
                + "' не является исполняемым"@,
            ManifestProblem::NoExtensionId =>
                "Не найден валидный ID расширения в allowed_origins"@,
            ManifestProblem::HostMissing(path) => "Файл хоста '\""@ + path
                + "\"' не найден. Сначала установите KitsuPin."@,
            ManifestProblem::NoHomeDirectory =>
                "Не удалось определить домашний каталог пользователя"@,
            ManifestProblem::NotWritten(reason) => reason,
        },
{
}

/// The names by which kinds and sessions are known outside.
pub proof fn kinds_are_known_by_name(kind: PayloadKind, content: ContentType, session: SessionType)
    ensures
        kind.name() == match kind {
            PayloadKind::Text => "text"@,
            PayloadKind::Image => "image"@,
        },
        content.name() == match content {
            ContentType::Text => "Text"@,
            ContentType::Links => "Links"@,
            ContentType::Email => "Email"@,
            ContentType::Numbers => "Numbers"@,
        },
        session.name() == match session {
            SessionType::X11 => "x11"@,
            SessionType::Wayland => "wayland"@,
            SessionType::Unknown => "unknown"@,
        },
        backend::backend_name(session) == match session {
            SessionType::X11 => "x11-xfixes"@,
            SessionType::Wayland => "wayland-limited"@,
            SessionType::Unknown => "unknown-fallback"@,
        },
{
}

} // verus!
