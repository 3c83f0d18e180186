//! The messages, one TOML document per language.

use vstd::prelude::*;

verus! {

/// The German messages.
pub const DE: &'static str = r#"
[greeting]
title = "Hallo {name}, schön, dass du da bist!"

[farewell]
body = "Dein Signal-Name ist nicht mehr eingetragen, ab jetzt melde ich mich nicht mehr. Mach es gut!"

[help]
body = """
Schreib mir einen Titel, und ich suche danach.
Antworte mit der Nummer, um etwas zu wünschen, "m" zeigt mehr.
/film TITEL sucht nur Filme, /serie TITEL nur Serien.
/status zeigt, was unterwegs ist.
/weg NUMMER nimmt einen Wunsch zurück.
/abbruch beendet eine offene Frage, /hilfe zeigt das hier."""

[search]
none = "Dazu habe ich nichts gefunden."
no_more = "Mehr habe ich nicht."
kind_movie = "Film"
kind_tv = "Serie"
already = "schon da"
footer = "Antworte mit der Nummer. \"m\" zeigt mehr."

[request]
placed = "{title} ist eingetragen. Ich melde mich, wenn es da ist.\nDoch nicht? /weg {id} nimmt es wieder herunter."
placed_not_released = "{title} ist eingetragen, aber noch nicht für zu Hause erschienen. Ich melde mich, wenn es da ist.\nDoch nicht? /weg {id} nimmt es wieder herunter."
profile = "Fassung: {profile}"
profile_question = "In welcher Fassung soll {title} kommen?"
already = "{title} ist schon da oder schon gewünscht."
seasons_question = "Welche Staffeln von {title}? Antworte mit Nummern (\"1 3\") oder mit \"alle\"."
withdrawn = "Wunsch {id} ist zurückgenommen."
unknown_id = "Einen Wunsch {id} von dir kenne ich nicht."

[status]
line = "{id}: {title} – {state}"
empty = "Von dir ist gerade nichts unterwegs."
untitled = "ohne Titel"
available = "ist da"
declined = "wurde abgelehnt"
not_handed_over = "das konnte ich nicht eintragen"
partly_available = "ein Teil ist da, der Rest kommt noch"
partly_counts = "{have} von {aired} Folgen sind da"
partly_counts_next = "{have} von {aired} Folgen sind da, die nächste kommt am {date}"
import_stuck = "geladen, hängt aber am letzten Schritt"
downloading = "lädt, {percent} %"
not_released = "noch nicht für zu Hause erschienen"
not_released_date = "noch nicht für zu Hause erschienen (voraussichtlich ab {date})"
not_aired = "noch nicht ausgestrahlt"
not_aired_date = "noch nicht ausgestrahlt, die erste Folge kommt am {date}"
download_failed = "ein Versuch ist fehlgeschlagen, ich suche weiter"
searching = "ich suche noch, bisher war nichts Passendes dabei"
waiting = "wartet"
nothing_exists = "bisher nirgends aufzutreiben"
only_in_languages = "bisher nur auf {languages} zu haben"
too_large = "bisher nur in Fassungen, die zu groß sind"
too_small = "bisher nur in Fassungen, die zu klein sind"
wrong_quality = "bisher nur in einer Bildqualität, die wir nicht nehmen"
otherwise = "bisher nur in Fassungen, die wir nicht nehmen"

[notice]
download_failed = "Zu „{title}\": ein Versuch ist fehlgeschlagen. Ich suche weiter und melde mich, wenn er da ist."
import_stuck = "Zu „{title}\": geladen, hängt aber am letzten Schritt. Da muss jemand nachsehen."
not_handed_over = "Zu „{title}\": ich konnte den Wunsch auch beim zweiten Versuch nicht eintragen."
unsuitable = "Zu „{title}\": {state}. Ich suche weiter und melde mich, wenn er da ist."
unsuitable_season = "Zu „{title}\", Staffel {season}: {state}. Ich suche weiter und melde mich, wenn sie da ist."
unsuitable_hint = "Lieber eine andere Fassung? /weg {id} nimmt den Wunsch zurück, und du kannst ihn neu stellen."

[available]
ready = "„{title}\" ist da.\n{url}"
failed = "Bei „{title}\" ist leider etwas schiefgegangen."

[error]
unknown_sender = "Ich kenne dich noch nicht. Trag hier deinen Signal-Namen ein: {url}\nI do not know you yet. Enter your Signal name here: {url}"
not_allowed = "Dir fehlt noch die Gruppe dafür. Frag {operator}."
not_understood = "Damit kann ich nichts anfangen. /hilfe zeigt, was geht."
seerr_down = "Die Wunschliste antwortet gerade nicht. Versuch es später noch einmal."

[language]
Chinese = "Chinesisch"
Danish = "Dänisch"
Dutch = "Niederländisch"
English = "Englisch"
Finnish = "Finnisch"
French = "Französisch"
German = "Deutsch"
Italian = "Italienisch"
Japanese = "Japanisch"
Korean = "Koreanisch"
Norwegian = "Norwegisch"
Polish = "Polnisch"
Portuguese = "Portugiesisch"
"Portuguese (Brazil)" = "Portugiesisch (Brasilien)"
Russian = "Russisch"
Spanish = "Spanisch"
Swedish = "Schwedisch"
"#;

/// The English messages.
pub const EN: &'static str = r#"
[greeting]
title = "Hello {name}, good to have you here!"

[farewell]
body = "Your Signal name is no longer on record, so this is the last you hear from me. Take care!"

[help]
body = """
Send me a title and I search for it.
Reply with the number to ask for it, "m" shows more.
/movie TITLE searches films alone, /series TITLE series alone.
/status shows what is on its way.
/withdraw NUMBER takes a wish off the list again.
/cancel ends an open question, /help shows this."""

[search]
none = "I found nothing for that."
no_more = "That is all I have."
kind_movie = "Movie"
kind_tv = "Series"
already = "already here"
footer = "Reply with the number. \"m\" shows more."

[request]
placed = "{title} is on the list. I'll let you know once it's here.\nWrong one? /withdraw {id} takes it off again."
placed_not_released = "{title} is on the list, but not out for home viewing yet. I'll let you know once it's here.\nWrong one? /withdraw {id} takes it off again."
profile = "Version: {profile}"
profile_question = "Which version of {title} would you like?"
already = "{title} is already here, or somebody has already asked for it."
seasons_question = "Which seasons of {title}? Reply with numbers (\"1 3\") or with \"all\"."
withdrawn = "Wish {id} is off the list."
unknown_id = "I know of no wish {id} of yours."

[status]
line = "{id}: {title} – {state}"
empty = "Nothing of yours is on its way right now."
untitled = "untitled"
available = "here"
declined = "declined"
not_handed_over = "I couldn't put it on the list"
partly_available = "part of it is here, the rest is still coming"
partly_counts = "{have} of {aired} episodes are here"
partly_counts_next = "{have} of {aired} episodes are here, the next one comes on {date}"
import_stuck = "downloaded, but stuck on the last step"
downloading = "downloading, {percent} %"
not_released = "not out for home viewing yet"
not_released_date = "not out for home viewing yet (expected from {date})"
not_aired = "not aired yet"
not_aired_date = "not aired yet, the first episode comes on {date}"
download_failed = "one attempt failed, I'm still looking"
searching = "still looking, nothing suitable so far"
waiting = "waiting"
nothing_exists = "nowhere to be found so far"
only_in_languages = "so far only available in {languages}"
too_large = "so far only in versions that are too big"
too_small = "so far only in versions that are too small"
wrong_quality = "so far only in a picture quality we do not take"
otherwise = "so far only in versions we do not take"

[notice]
download_failed = "About \"{title}\": one attempt failed. I keep looking and will tell you when it is here."
import_stuck = "About \"{title}\": downloaded, but stuck on the last step. Somebody has to take a look."
not_handed_over = "About \"{title}\": I couldn't put it on the list, and a second attempt did not work either."
unsuitable = "About \"{title}\": {state}. I keep looking and will tell you when it is here."
unsuitable_season = "About \"{title}\", season {season}: {state}. I keep looking and will tell you when it is here."
unsuitable_hint = "Rather have another version? /withdraw {id} takes the wish off, and you can ask anew."

[available]
ready = "\"{title}\" is here.\n{url}"
failed = "Something went wrong with \"{title}\"."

[error]
unknown_sender = "I do not know you yet. Enter your Signal name here: {url}\nIch kenne dich noch nicht. Trag hier deinen Signal-Namen ein: {url}"
not_allowed = "You are missing the group for that. Ask {operator}."
not_understood = "I cannot make sense of that. /help shows what works."
seerr_down = "The wish list does not answer right now. Try again later."

[language]
Chinese = "Chinese"
Danish = "Danish"
Dutch = "Dutch"
English = "English"
Finnish = "Finnish"
French = "French"
German = "German"
Italian = "Italian"
Japanese = "Japanese"
Korean = "Korean"
Norwegian = "Norwegian"
Polish = "Polish"
Portuguese = "Portuguese"
"Portuguese (Brazil)" = "Portuguese (Brazil)"
Russian = "Russian"
Spanish = "Spanish"
Swedish = "Swedish"
"#;

} // verus!
