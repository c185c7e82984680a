# Store applications with a helper that is updated on its own. The file belongs
# beside settings.toml.

[[companions]]
package = "ExampleAssistant"
executable = "assistant.exe"
# Below the user's configuration directory: Assistant\helper\<version>\assistant.exe
directory = 'Assistant\helper'
